//! The API client: holds the key and base URL and renders request URLs.
//!
//! A request URL is the base URL's origin, the fixed `/query` path (any
//! path on the configured base URL is deliberately discarded), and the
//! query parameters `function`, `symbol` and `apikey` in that order, with
//! `outputsize=full` appended when the full history is asked for.
//! Parameter values are form-urlencoded: ASCII letters, digits and
//! `*-._` stand as themselves, a space becomes `+`, and every other byte of
//! the value's UTF-8 encoding becomes `%` and two uppercase hex digits.

use vstd::prelude::*;
use vstd::string::StringExecFns;
use crate::error::AlphaVantageError;

verus! {

/// View of the default API base URL.
pub open spec fn api_base_url() -> Seq<char> {
    "https://alphavantage.co/query"@
}

/// The six time-series endpoints.
#[derive(Clone, Copy, Debug, PartialEq, Eq, Structural)]
pub enum Endpoint {
    Daily,
    DailyAdjusted,
    Weekly,
    WeeklyAdjusted,
    Monthly,
    MonthlyAdjusted,
}

impl Endpoint {
    /// The provider's function name for this endpoint.
    pub open spec fn spec_function_name(self) -> Seq<char> {
        match self {
            Endpoint::Daily => "TIME_SERIES_DAILY"@,
            Endpoint::DailyAdjusted => "TIME_SERIES_DAILY_ADJUSTED"@,
            Endpoint::Weekly => "TIME_SERIES_WEEKLY"@,
            Endpoint::WeeklyAdjusted => "TIME_SERIES_WEEKLY_ADJUSTED"@,
            Endpoint::Monthly => "TIME_SERIES_MONTHLY"@,
            Endpoint::MonthlyAdjusted => "TIME_SERIES_MONTHLY_ADJUSTED"@,
        }
    }

    /// The provider's function name for this endpoint.
    pub fn function_name(&self) -> (r: &'static str)
        ensures
            r@ == self.spec_function_name(),
    {
        match self {
            Endpoint::Daily => "TIME_SERIES_DAILY",
            Endpoint::DailyAdjusted => "TIME_SERIES_DAILY_ADJUSTED",
            Endpoint::Weekly => "TIME_SERIES_WEEKLY",
            Endpoint::WeeklyAdjusted => "TIME_SERIES_WEEKLY_ADJUSTED",
            Endpoint::Monthly => "TIME_SERIES_MONTHLY",
            Endpoint::MonthlyAdjusted => "TIME_SERIES_MONTHLY_ADJUSTED",
        }
    }

    /// The nominal sampling interval of this endpoint's series, in seconds:
    /// one day, seven days, or a nominal thirty-day month.
    pub open spec fn spec_interval_seconds(self) -> int {
        match self {
            Endpoint::Daily => 86400,
            Endpoint::DailyAdjusted => 86400,
            Endpoint::Weekly => 604800,
            Endpoint::WeeklyAdjusted => 604800,
            Endpoint::Monthly => 2592000,
            Endpoint::MonthlyAdjusted => 2592000,
        }
    }

    /// The nominal sampling interval of this endpoint's series, in seconds.
    pub fn interval_seconds(&self) -> (r: i64)
        ensures
            r as int == self.spec_interval_seconds(),
    {
        match self {
            Endpoint::Daily => 86400,
            Endpoint::DailyAdjusted => 86400,
            Endpoint::Weekly => 604800,
            Endpoint::WeeklyAdjusted => 604800,
            Endpoint::Monthly => 2592000,
            Endpoint::MonthlyAdjusted => 2592000,
        }
    }
}

// ===== Query encoding =====

/// A byte that form-urlencoding keeps as itself.
pub open spec fn is_plain_query_byte(b: u8) -> bool {
    (0x30 <= b <= 0x39) || (0x41 <= b <= 0x5a) || (0x61 <= b <= 0x7a) || b == 0x2a || b == 0x2d
        || b == 0x2e || b == 0x5f
}

/// The uppercase hexadecimal digit for `v`.
pub open spec fn hex_digit_char(v: int) -> char {
    if v < 10 {
        (0x30 + v) as char
    } else {
        (0x37 + v) as char
    }
}

/// The characters one byte of a parameter value encodes to.
pub open spec fn encode_byte(b: u8) -> Seq<char> {
    if b == 0x20 {
        seq!['+']
    } else if is_plain_query_byte(b) {
        seq![b as char]
    } else {
        seq!['%', hex_digit_char(b as int / 16), hex_digit_char(b as int % 16)]
    }
}

/// The form-urlencoding of a parameter value's bytes.
pub open spec fn encode_query_value(bytes: Seq<u8>) -> Seq<char>
    decreases bytes.len(),
{
    if bytes.len() == 0 {
        Seq::empty()
    } else {
        encode_byte(bytes.first()) + encode_query_value(bytes.drop_first())
    }
}

/// Encoding distributes over concatenation.
pub proof fn lemma_encode_concat(a: Seq<u8>, b: Seq<u8>)
    ensures
        encode_query_value(a + b) == encode_query_value(a) + encode_query_value(b),
    decreases a.len(),
{
    if a.len() == 0 {
        assert(a + b =~= b);
        assert(encode_query_value(a) + encode_query_value(b) =~= encode_query_value(b));
    } else {
        assert((a + b).drop_first() =~= a.drop_first() + b);
        assert((a + b).first() == a.first());
        assert((a + b).len() > 0);
        lemma_encode_concat(a.drop_first(), b);
        assert(encode_byte(a.first()) + (encode_query_value(a.drop_first()) + encode_query_value(b))
            =~= (encode_byte(a.first()) + encode_query_value(a.drop_first())) + encode_query_value(
            b,
        ));
    }
}

/// The view of an encoded value: the encoding of the value's UTF-8 bytes.
pub open spec fn encoded_value(s: Seq<char>) -> Seq<char> {
    encode_query_value(vstd::utf8::encode_utf8(s))
}

/// The query text of a request URL: the three fixed-name pairs, and the
/// output-size pair when the full history is asked for.
pub open spec fn query_text(
    function: Seq<char>,
    symbol: Seq<char>,
    api_key: Seq<char>,
    full_history: bool,
) -> Seq<char> {
    "function="@ + encoded_value(function) + "&symbol="@ + encoded_value(symbol) + "&apikey="@
        + encoded_value(api_key) + (if full_history {
        "&outputsize=full"@
    } else {
        Seq::<char>::empty()
    })
}

/// The request URL for the given base origin, function, symbol, key and
/// output-size choice.
pub open spec fn spec_url(
    base: Seq<char>,
    function: Seq<char>,
    symbol: Seq<char>,
    api_key: Seq<char>,
    full_history: bool,
) -> Seq<char> {
    base + "/query?function="@ + encoded_value(function) + "&symbol="@ + encoded_value(symbol)
        + "&apikey="@ + encoded_value(api_key) + (if full_history {
        "&outputsize=full"@
    } else {
        Seq::<char>::empty()
    })
}

/// Whether `url::Url::parse` accepts the characters as a URL; the answer
/// depends on the input characters alone.
pub uninterp spec fn base_url_ok(s: Seq<char>) -> bool;

/// What `url::Url::parse` renders for a URL's scheme and authority; the
/// result depends on the input characters alone.
pub uninterp spec fn base_origin(s: Seq<char>) -> Seq<char>;

/// Relies on url::Url::parse to validate the configured base URL, and on
/// indexing the parsed URL's serialization up to url::Position::BeforePath
/// to render its scheme and authority.  That prefix never holds `?` or `#`:
/// both characters are percent-encoded in user information, cannot stand in
/// a scheme, host or port, and everything from the path on is cut off.
#[verifier::external_body]
fn parse_base_url(s: &str) -> (r: Result<String, url::ParseError>)
    ensures
        r is Ok <==> base_url_ok(s@),
        r matches Ok(b) ==> b@ == base_origin(s@),
        r matches Ok(b) ==> forall|i: int| 0 <= i < b@.len() ==> b@[i] != '?' && b@[i] != '#',
{
    match url::Url::parse(s) {
        Ok(u) => Ok(u[..url::Position::BeforePath].to_owned()),
        Err(e) => Err(e),
    }
}

/// Relies on String::push: appends one character.
#[verifier::external_body]
fn push_char(s: &mut String, c: char)
    ensures
        final(s)@ == old(s)@ + seq![c],
{
    s.push(c);
}

/// The uppercase hexadecimal digit for `v`.
fn hex_digit(v: u8) -> (r: char)
    requires
        v < 16,
    ensures
        r == hex_digit_char(v as int),
{
    if v < 10 {
        (0x30 + v) as char
    } else {
        (0x37 + v) as char
    }
}

/// Appends the form-urlencoding of `value`'s UTF-8 bytes to `out`.
fn append_encoded(out: &mut String, value: &str)
    ensures
        final(out)@ == old(out)@ + encoded_value(value@),
{
    let bytes: &[u8] = value.as_bytes();
    let n = bytes.len();
    let mut i: usize = 0;
    assert(bytes@.take(0) =~= Seq::<u8>::empty());
    while i < n
        invariant
            i <= n,
            n == bytes@.len(),
            out@ == old(out)@ + encode_query_value(bytes@.take(i as int)),
        decreases n - i,
    {
        let b = bytes[i];
        proof {
            assert(bytes@.take(i as int + 1) =~= bytes@.take(i as int) + seq![bytes@[i as int]]);
            lemma_encode_concat(bytes@.take(i as int), seq![bytes@[i as int]]);
            let single = seq![bytes@[i as int]];
            assert(single.drop_first() =~= Seq::<u8>::empty());
            assert(single.first() == bytes@[i as int]);
            assert(encode_query_value(Seq::<u8>::empty()) == Seq::<char>::empty());
            assert(encode_byte(bytes@[i as int]) + Seq::<char>::empty() =~= encode_byte(
                bytes@[i as int],
            ));
            assert(encode_query_value(single) =~= encode_byte(bytes@[i as int]));
        }
        if b == 0x20 {
            push_char(out, '+');
            assert(out@ =~= old(out)@ + encode_query_value(bytes@.take(i as int + 1)));
        } else if (0x30 <= b && b <= 0x39) || (0x41 <= b && b <= 0x5a) || (0x61 <= b && b <= 0x7a)
            || b == 0x2a || b == 0x2d || b == 0x2e || b == 0x5f {
            push_char(out, b as char);
            assert(out@ =~= old(out)@ + encode_query_value(bytes@.take(i as int + 1)));
        } else {
            push_char(out, '%');
            push_char(out, hex_digit(b / 16));
            push_char(out, hex_digit(b % 16));
            assert(out@ =~= old(out)@ + encode_query_value(bytes@.take(i as int + 1)));
        }
        i = i + 1;
    }
    assert(bytes@.take(n as int) =~= bytes@);
    assert(out@ =~= old(out)@ + encoded_value(value@));
}

/// A client bound to an API key and a base URL.
pub struct Client {
    pub api_key: String,
    pub api_url: String,
}

impl Client {
    /// Constructs a client bound to the default API base URL and the given key.
    pub fn new(api_key: &str) -> (c: Client)
        ensures
            c.api_key@ == api_key@,
            c.api_url@ == api_base_url(),
    {
        Client { api_key: api_key.to_owned(), api_url: "https://alphavantage.co/query".to_owned() }
    }

    /// Constructs a client bound to an arbitrary base URL and the given key.
    pub fn new_with_url(api_key: &str, api_url: &str) -> (c: Client)
        ensures
            c.api_key@ == api_key@,
            c.api_url@ == api_url@,
    {
        Client { api_key: api_key.to_owned(), api_url: api_url.to_owned() }
    }

    /// Renders the request URL for one endpoint function and symbol.  Fails
    /// exactly when the configured base URL does not parse as a URL; the
    /// error then carries what the parser reported.
    pub fn make_url(&self, function: &str, symbol: &str, extended: bool) -> (r: Result<
        String,
        AlphaVantageError,
    >)
        ensures
            r is Ok <==> base_url_ok(self.api_url@),
            match r {
                Ok(u) => u@ == spec_url(
                    base_origin(self.api_url@),
                    function@,
                    symbol@,
                    self.api_key@,
                    extended,
                ) && (forall|i: int|
                    0 <= i < base_origin(self.api_url@).len() ==> (#[trigger] base_origin(
                        self.api_url@,
                    )[i]) != '?' && base_origin(self.api_url@)[i] != '#'),
                Err(e) => e is ParseError,
            },
    {
        let base = match parse_base_url(self.api_url.as_str()) {
            Ok(b) => b,
            Err(e) => {
                return Err(AlphaVantageError::ParseError(e));
            },
        };
        let mut out = base;
        out.append("/query?function=");
        append_encoded(&mut out, function);
        out.append("&symbol=");
        append_encoded(&mut out, symbol);
        out.append("&apikey=");
        append_encoded(&mut out, self.api_key.as_str());
        if extended {
            out.append("&outputsize=full");
        }
        Ok(out)
    }
}

// ===== Laws =====

/// Law: with the compact output, the URL's query is exactly the three
/// parameters `function`, `symbol` and `apikey`, in that order, each name
/// followed by `=` and the encoded value, separated by `&`; no `outputsize`
/// parameter is rendered.
pub proof fn lemma_compact_url_has_three_pairs(
    base: Seq<char>,
    function: Seq<char>,
    symbol: Seq<char>,
    api_key: Seq<char>,
)
    ensures
        spec_url(base, function, symbol, api_key, false) == base + "/query?"@ + ("function="@
            + encoded_value(function)) + "&"@ + ("symbol="@ + encoded_value(symbol)) + "&"@ + (
        "apikey="@ + encoded_value(api_key)),
{
    reveal_strlit("/query?function=");
    reveal_strlit("/query?");
    reveal_strlit("function=");
    reveal_strlit("&symbol=");
    reveal_strlit("&");
    reveal_strlit("symbol=");
    reveal_strlit("&apikey=");
    reveal_strlit("apikey=");
    assert("/query?function="@ =~= "/query?"@ + "function="@);
    assert("&symbol="@ =~= "&"@ + "symbol="@);
    assert("&apikey="@ =~= "&"@ + "apikey="@);
    assert(spec_url(base, function, symbol, api_key, false) =~= base + "/query?"@ + ("function="@
        + encoded_value(function)) + "&"@ + ("symbol="@ + encoded_value(symbol)) + "&"@ + (
    "apikey="@ + encoded_value(api_key)));
}

/// Law: when the base origin holds no `?` (the parsed origin never does),
/// the request URL holds exactly one `?`: the text before it is the origin
/// and the `/query` path, and the text after it is exactly the query text of
/// the chosen parameters.  So the whole URL's query is exactly these pairs.
pub proof fn lemma_url_query_structure(
    base: Seq<char>,
    function: Seq<char>,
    symbol: Seq<char>,
    api_key: Seq<char>,
    full_history: bool,
)
    requires
        forall|i: int| 0 <= i < base.len() ==> base[i] != '?',
    ensures
        spec_url(base, function, symbol, api_key, full_history) == base + "/query"@ + seq!['?']
            + query_text(function, symbol, api_key, full_history),
        forall|i: int|
            0 <= i < (base + "/query"@).len() ==> (#[trigger] (base + "/query"@)[i]) != '?',
        forall|i: int|
            0 <= i < query_text(function, symbol, api_key, full_history).len() ==> (
            #[trigger] query_text(function, symbol, api_key, full_history)[i]) != '?',
{
    reveal_strlit("/query?function=");
    reveal_strlit("/query");
    reveal_strlit("function=");
    reveal_strlit("&symbol=");
    reveal_strlit("&apikey=");
    reveal_strlit("&outputsize=full");
    assert("/query?function="@ =~= "/query"@ + seq!['?'] + "function="@);
    assert(spec_url(base, function, symbol, api_key, full_history) =~= base + "/query"@
        + seq!['?'] + query_text(function, symbol, api_key, full_history));
    assert(forall|i: int| 0 <= i < "/query"@.len() ==> (#[trigger] "/query"@[i]) != '?');
    assert(forall|i: int| 0 <= i < "function="@.len() ==> (#[trigger] "function="@[i]) != '?');
    assert(forall|i: int| 0 <= i < "&symbol="@.len() ==> (#[trigger] "&symbol="@[i]) != '?');
    assert(forall|i: int| 0 <= i < "&apikey="@.len() ==> (#[trigger] "&apikey="@[i]) != '?');
    assert(forall|i: int|
        0 <= i < "&outputsize=full"@.len() ==> (#[trigger] "&outputsize=full"@[i]) != '?');
    lemma_encoded_value_has_no_separators(vstd::utf8::encode_utf8(function));
    lemma_encoded_value_has_no_separators(vstd::utf8::encode_utf8(symbol));
    lemma_encoded_value_has_no_separators(vstd::utf8::encode_utf8(api_key));
    let q1 = "function="@ + encoded_value(function);
    let q2 = q1 + "&symbol="@;
    let q3 = q2 + encoded_value(symbol);
    let q4 = q3 + "&apikey="@;
    let q5 = q4 + encoded_value(api_key);
    assert(forall|i: int| 0 <= i < q1.len() ==> (#[trigger] q1[i]) != '?');
    assert(forall|i: int| 0 <= i < q2.len() ==> (#[trigger] q2[i]) != '?');
    assert(forall|i: int| 0 <= i < q3.len() ==> (#[trigger] q3[i]) != '?');
    assert(forall|i: int| 0 <= i < q4.len() ==> (#[trigger] q4[i]) != '?');
    assert(forall|i: int| 0 <= i < q5.len() ==> (#[trigger] q5[i]) != '?');
    assert(query_text(function, symbol, api_key, full_history) =~= if full_history {
        q5 + "&outputsize=full"@
    } else {
        q5
    });
}

/// Law: an encoded parameter value never holds `&`, `=` or `?`, so no value
/// can inject a further query parameter into the URL.
pub proof fn lemma_encoded_value_has_no_separators(bytes: Seq<u8>)
    ensures
        forall|i: int|
            0 <= i < encode_query_value(bytes).len() ==> (#[trigger] encode_query_value(bytes)[i])
                != '&' && encode_query_value(bytes)[i] != '=' && encode_query_value(bytes)[i]
                != '?',
    decreases bytes.len(),
{
    if bytes.len() > 0 {
        lemma_encoded_value_has_no_separators(bytes.drop_first());
        let b = bytes.first();
        let eb = encode_byte(b);
        assert forall|i: int| 0 <= i < eb.len() implies (#[trigger] eb[i]) != '&' && eb[i] != '='
            && eb[i] != '?' by {
            if b != 0x20 && is_plain_query_byte(b) {
                assert(eb[i] == b as char);
                assert(b != 0x26 && b != 0x3d && b != 0x3f);
            }
        }
        assert(encode_query_value(bytes) == eb + encode_query_value(bytes.drop_first()));
    }
}

/// Law: asking for the full history appends exactly the fourth parameter
/// `outputsize=full` after `apikey`; the URL is otherwise unchanged.
pub proof fn lemma_full_history_appends_output_size(
    base: Seq<char>,
    function: Seq<char>,
    symbol: Seq<char>,
    api_key: Seq<char>,
)
    ensures
        spec_url(base, function, symbol, api_key, true) == spec_url(
            base,
            function,
            symbol,
            api_key,
            false,
        ) + "&outputsize=full"@,
{
    assert(spec_url(base, function, symbol, api_key, true) =~= spec_url(
        base,
        function,
        symbol,
        api_key,
        false,
    ) + "&outputsize=full"@);
}

} // verus!
