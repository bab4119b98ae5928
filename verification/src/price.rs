//! Reading a price in cents out of a JSON reply such as
//! `{"USD": 6.33}`, and out of the HTTP response that carries it.

use vstd::prelude::*;
use vstd::string::{StrSliceExecFns, StringSliceAdditionalSpecFns};
use vstd::utf8::{decode_utf8, valid_utf8};

verus! {

/// A JSON number as `lite_json` reads it: `integer.fraction` (the fraction
/// has `fraction_length` digits) times ten to the `exponent`.
#[derive(Clone, Copy, Debug, PartialEq, Eq, Structural)]
pub struct JsonNumber {
    pub integer: u64,
    pub fraction: u64,
    pub fraction_length: u32,
    pub exponent: i32,
    pub negative: bool,
}

/// A member value of a JSON object, as far as prices are concerned.
#[derive(Clone, Copy, Debug, PartialEq, Eq, Structural)]
pub enum JsonField {
    Number(JsonNumber),
    Other,
}

/// A parsed JSON text: not JSON at all, JSON but not an object, or an
/// object with its members in order.
pub enum JsonDoc {
    Invalid,
    NotObject,
    Object(Vec<(Vec<char>, JsonField)>),
}

/// The abstract value of a `JsonDoc`.
pub enum JsonDocModel {
    Invalid,
    NotObject,
    Object(Seq<(Seq<char>, JsonField)>),
}

impl View for JsonDoc {
    type V = JsonDocModel;

    open spec fn view(&self) -> JsonDocModel {
        match self {
            JsonDoc::Invalid => JsonDocModel::Invalid,
            JsonDoc::NotObject => JsonDocModel::NotObject,
            JsonDoc::Object(members) => JsonDocModel::Object(
                members@.map_values(|m: (Vec<char>, JsonField)| (m.0@, m.1)),
            ),
        }
    }
}

/// The errors of an HTTP request.
#[derive(Clone, Copy, Debug, PartialEq, Eq, Structural)]
pub enum HttpError {
    DeadlineReached,
    IoError,
    Unknown,
}

pub open spec fn is_digit(c: char) -> bool {
    '0' <= c <= '9'
}

/// Where a reading of a text from its start stands with respect to JSON
/// strings: outside any, inside one, or just after a backslash inside one.
#[derive(Clone, Copy, Debug, PartialEq, Eq, Structural)]
pub enum StringScan {
    Outside,
    Inside,
    Escaped,
}

/// Where the reading stands after the character `c`.
pub open spec fn scan_step(state: StringScan, c: char) -> StringScan {
    match state {
        StringScan::Outside => if c == '"' {
            StringScan::Inside
        } else {
            StringScan::Outside
        },
        StringScan::Inside => if c == '"' {
            StringScan::Outside
        } else if c == '\\' {
            StringScan::Escaped
        } else {
            StringScan::Inside
        },
        StringScan::Escaped => StringScan::Inside,
    }
}

/// Where the reading stands after the first `i` characters of `text`.
pub open spec fn scan_state(text: Seq<char>, i: int) -> StringScan
    decreases i,
{
    if i <= 0 || i > text.len() {
        StringScan::Outside
    } else {
        scan_step(scan_state(text, i - 1), text[i - 1])
    }
}

/// How many digits outside strings end the first `i` characters of
/// `text`.
pub open spec fn trailing_digits(text: Seq<char>, i: int) -> nat
    decreases i,
{
    if i <= 0 || i > text.len() || !is_digit(text[i - 1]) || scan_state(text, i - 1) != StringScan::Outside {
        0
    } else {
        1 + trailing_digits(text, i - 1)
    }
}

/// Whether position `p` of `text` is just after an exponent mark `e` or
/// `E`, with or without a sign.
pub open spec fn after_exponent_mark(text: Seq<char>, p: int) -> bool {
    ||| (1 <= p <= text.len() && (text[p - 1] == 'e' || text[p - 1] == 'E'))
    ||| (2 <= p <= text.len() && (text[p - 1] == '+' || text[p - 1] == '-') && (text[p - 2] == 'e'
        || text[p - 2] == 'E'))
}

/// The texts that `lite_json` reads without an arithmetic overflow. It
/// computes only with the digits of numbers, which stand outside strings:
/// there, no run of twenty digits or more (an integer part or a fraction
/// of up to nineteen digits fits in a `u64`), and no run of ten digits or
/// more after an exponent mark (up to nine fit in an `i32`). Digits inside
/// strings are not bounded.
pub open spec fn digit_runs_bounded(text: Seq<char>) -> bool {
    forall|i: int|
        0 <= i <= text.len() ==> {
            &&& #[trigger] trailing_digits(text, i) < 20
            &&& after_exponent_mark(text, i - trailing_digits(text, i)) ==> trailing_digits(text, i) < 10
        }
}

/// The texts that `lite_json` reads without an arithmetic overflow: its
/// positions count characters in a `u32`, and its digit runs are bounded.
pub open spec fn lite_json_reads(text: Seq<char>) -> bool {
    text.len() < u32::MAX && digit_runs_bounded(text)
}

/// What `lite_json::parse_json` makes of `text`, reduced to what price
/// reading needs.
pub uninterp spec fn lite_json_document(text: Seq<char>) -> JsonDocModel;

/// Calls `lite_json::parse_json`. The contract claims that the outcome
/// depends on the text alone (it is named `lite_json_document`). The
/// reply is converted member by member: a number keeps its fields, any
/// other value becomes `Other`. `requires` leaves out the texts on which
/// the parser's arithmetic would overflow.
#[verifier::external_body]
fn parse_json_document(text: &str) -> (doc: JsonDoc)
    requires
        lite_json_reads(text@),
    ensures
        doc@ == lite_json_document(text@),
{
    match lite_json::parse_json(text) {
        Ok(lite_json::JsonValue::Object(members)) => JsonDoc::Object(
            members.into_iter().map(|(key, value)| (key, match value {
                lite_json::JsonValue::Number(n) => JsonField::Number(JsonNumber {
                    integer: n.integer, fraction: n.fraction, fraction_length: n.fraction_length,
                    exponent: n.exponent, negative: n.negative }),
                _ => JsonField::Other,
            })).collect(),
        ),
        Ok(_) => JsonDoc::NotObject,
        Err(_) => JsonDoc::Invalid,
    }
}

/// `u64::pow` raises a number to a power; it overflows, and panics, where
/// the power does not fit in a `u64`.
pub assume_specification[ <u64>::pow ](x: u64, exp: u32) -> (r: u64)
    requires
        vstd::arithmetic::power::pow(x as int, exp as nat) <= u64::MAX,
    ensures
        r == vstd::arithmetic::power::pow(x as int, exp as nat),
;

/// Calls `std::str::from_utf8`: the text made of the given bytes, if they
/// are valid UTF-8. The contract claims just that, over vstd's model of
/// UTF-8.
#[verifier::external_body]
fn from_utf8(bytes: &[u8]) -> (text: Option<&str>)
    ensures
        text is Some <==> valid_utf8(bytes@),
        text matches Some(t) ==> t.spec_bytes() == bytes@,
{
    std::str::from_utf8(bytes).ok()
}

/// The text that valid UTF-8 bytes encode.
fn str_from_utf8(bytes: &[u8]) -> (text: Option<&str>)
    ensures
        text is Some <==> valid_utf8(bytes@),
        text matches Some(t) ==> t@ == decode_utf8(bytes@),
{
    let text = from_utf8(bytes);
    proof {
        if let Some(t) = text {
            vstd::utf8::encode_utf8_decode_utf8(t@);
        }
    }
    text
}

/// The key under which the price stands.
pub open spec fn usd_key() -> Seq<char> {
    seq!['U', 'S', 'D']
}

/// The value of the first member named `USD`.
pub open spec fn first_usd(members: Seq<(Seq<char>, JsonField)>) -> Option<JsonField>
    decreases members.len(),
{
    if members.len() == 0 {
        None
    } else if members[0].0 == usd_key() {
        Some(members[0].1)
    } else {
        first_usd(members.drop_first())
    }
}

/// The fraction as a number of cents, before it is cut to a `u32`: its
/// first two digits, a single digit counting as tenths.
pub open spec fn scaled_fraction(n: JsonNumber) -> int {
    if n.fraction_length >= 2 {
        n.fraction as int / vstd::arithmetic::power::pow(10, (n.fraction_length - 2) as nat)
    } else {
        n.fraction as int * vstd::arithmetic::power::pow(10, (2 - n.fraction_length) as nat)
    }
}

/// The numbers whose price in cents is computed without overflow.
pub open spec fn cents_fit(n: JsonNumber) -> bool {
    &&& n.fraction_length >= 2 ==> vstd::arithmetic::power::pow(10, (n.fraction_length - 2) as nat) <= u64::MAX
    &&& scaled_fraction(n) <= u64::MAX
    &&& (n.integer as u32) * 100 + (scaled_fraction(n) as u32) <= u32::MAX
}

/// The price in cents of a number: its integer part (as a `u32`) times a
/// hundred, plus its fraction in cents (as a `u32`). The sign and the
/// exponent are not read.
pub open spec fn cents_of(n: JsonNumber) -> u32 {
    ((n.integer as u32) * 100 + (scaled_fraction(n) as u32)) as u32
}

/// The price that a parsed reply gives: the number under the first `USD`
/// member of an object.
pub open spec fn price_of_document(doc: JsonDocModel) -> Option<u32> {
    match doc {
        JsonDocModel::Object(members) => match first_usd(members) {
            Some(JsonField::Number(n)) => Some(cents_of(n)),
            _ => None,
        },
        _ => None,
    }
}

/// The parsed replies whose price is computed without overflow.
pub open spec fn document_price_fits(doc: JsonDocModel) -> bool {
    match doc {
        JsonDocModel::Object(members) => match first_usd(members) {
            Some(JsonField::Number(n)) => cents_fit(n),
            _ => true,
        },
        _ => true,
    }
}

/// The texts that price reading handles without an overflow.
pub open spec fn price_text_ok(text: Seq<char>) -> bool {
    lite_json_reads(text) && document_price_fits(lite_json_document(text))
}

/// The fraction of a number in cents, where that fits in a `u64`.
fn fraction_in_cents(number: &JsonNumber) -> (part: Option<u64>)
    ensures
        part is Some <==> (number.fraction_length >= 2 ==> vstd::arithmetic::power::pow(
            10,
            (number.fraction_length - 2) as nat,
        ) <= u64::MAX) && scaled_fraction(*number) <= u64::MAX,
        part matches Some(p) ==> p == scaled_fraction(*number),
{
    proof {
        reveal_with_fuel(vstd::arithmetic::power::pow, 3);
    }
    if number.fraction_length >= 2 {
        let exp = number.fraction_length - 2;
        proof {
            reveal_with_fuel(vstd::arithmetic::power::pow, 21);
            assert(vstd::arithmetic::power::pow(10, 19) == 10000000000000000000int);
            assert(vstd::arithmetic::power::pow(10, 20) == 100000000000000000000int);
            if exp >= 20 {
                vstd::arithmetic::power::lemma_pow_increases(10, 20, exp as nat);
            } else {
                vstd::arithmetic::power::lemma_pow_increases(10, exp as nat, 19);
            }
            vstd::arithmetic::power::lemma_pow_positive(10, exp as nat);
            vstd::arithmetic::div_mod::lemma_div_is_ordered_by_denominator(
                number.fraction as int,
                1,
                vstd::arithmetic::power::pow(10, exp as nat),
            );
        }
        if exp >= 20 {
            return None;
        }
        Some(number.fraction / 10u64.pow(exp))
    } else {
        number.fraction.checked_mul(10u64.pow(2 - number.fraction_length))
    }
}

/// The price in cents of a number.
pub fn price_in_cents(number: &JsonNumber) -> (cents: u32)
    requires
        cents_fit(*number),
    ensures
        cents == cents_of(*number),
{
    let part = fraction_in_cents(number).unwrap();
    (number.integer as u32) * 100 + part as u32
}

/// The value of the first `USD` member of a parsed reply, if it is an
/// object with one.
pub fn usd_field(doc: &JsonDoc) -> (field: Option<JsonField>)
    ensures
        field == (match doc@ {
            JsonDocModel::Object(members) => first_usd(members),
            _ => None,
        }),
{
    match doc {
        JsonDoc::Object(members) => {
            let ghost model = members@.map_values(|m: (Vec<char>, JsonField)| (m.0@, m.1));
            let n = members.len();
            let mut i: usize = 0;
            assert(model.skip(0) =~= model);
            assert(doc@ == JsonDocModel::Object(model));
            while i < n
                invariant
                    n == members@.len(),
                    i <= n,
                    model == members@.map_values(|m: (Vec<char>, JsonField)| (m.0@, m.1)),
                    doc@ == JsonDocModel::Object(model),
                    first_usd(model) == first_usd(model.skip(i as int)),
                decreases n - i,
            {
                let key = &members[i].0;
                let is_usd = key.len() == 3 && key[0] == 'U' && key[1] == 'S' && key[2] == 'D';
                assert(model.skip(i as int).drop_first() =~= model.skip(i + 1));
                assert(model.skip(i as int)[0] == model[i as int]);
                if is_usd {
                    assert(key@ =~= usd_key());
                    return Some(members[i].1);
                } else {
                    assert(key@ != usd_key()) by {
                        if key@.len() == 3 {
                            assert(key@[0] != 'U' || key@[1] != 'S' || key@[2] != 'D');
                        }
                    }
                }
                i = i + 1;
            }
            assert(model.skip(n as int).len() == 0);
            None
        },
        _ => None,
    }
}

/// The price that a parsed reply gives, if any.
pub fn price_from_document(doc: &JsonDoc) -> (price: Option<u32>)
    requires
        document_price_fits(doc@),
    ensures
        price == price_of_document(doc@),
{
    match usd_field(doc) {
        Some(JsonField::Number(number)) => Some(price_in_cents(&number)),
        _ => None,
    }
}

/// Whether the price of a number is computed without overflow.
pub fn cents_fit_check(number: &JsonNumber) -> (fits: bool)
    ensures
        fits == cents_fit(*number),
{
    match fraction_in_cents(number) {
        None => false,
        Some(part) => {
            let whole = (number.integer as u32) as u64 * 100;
            whole + (part as u32) as u64 <= u32::MAX as u64
        },
    }
}

/// The price that a JSON reply gives, if any: the number under its first
/// `USD` member, in cents.
pub fn parse_price(price_str: &str) -> (price: Option<u32>)
    requires
        price_text_ok(price_str@),
    ensures
        price == price_of_document(lite_json_document(price_str@)),
{
    let doc = parse_json_document(price_str);
    price_from_document(&doc)
}

/// Whether `parse_price` can read `text` without an overflow.
pub fn price_text_parseable(text: &str) -> (ok: bool)
    ensures
        ok == price_text_ok(text@),
{
    if text.unicode_len() >= u32::MAX as usize || !digit_runs_are_bounded(text) {
        return false;
    }
    let doc = parse_json_document(text);
    match usd_field(&doc) {
        Some(JsonField::Number(number)) => cents_fit_check(&number),
        _ => true,
    }
}

/// `parse_price` where it reads the text without an overflow; `None`
/// where it would overflow.
pub fn try_parse_price(text: &str) -> (price: Option<Option<u32>>)
    ensures
        price is None <==> !price_text_ok(text@),
        price matches Some(p) ==> p == price_of_document(lite_json_document(text@)),
{
    if price_text_parseable(text) {
        Some(parse_price(text))
    } else {
        None
    }
}

/// What a price request's response gives: a status other than 200, a body
/// that is not UTF-8 and a body without a price are all `Unknown`.
pub open spec fn response_price(code: u16, body: Seq<u8>) -> Result<u32, HttpError> {
    if code != 200 || !valid_utf8(body) {
        Err(HttpError::Unknown)
    } else {
        match price_of_document(lite_json_document(decode_utf8(body))) {
            Some(p) => Ok(p),
            None => Err(HttpError::Unknown),
        }
    }
}

/// The responses whose price is read without an overflow.
pub open spec fn response_ok(code: u16, body: Seq<u8>) -> bool {
    code == 200 && valid_utf8(body) ==> price_text_ok(decode_utf8(body))
}

/// The price in cents that a response to the price request gives.
pub fn price_from_response(code: u16, body: &[u8]) -> (price: Result<u32, HttpError>)
    requires
        response_ok(code, body@),
    ensures
        price == response_price(code, body@),
{
    if code != 200 {
        return Err(HttpError::Unknown);
    }
    let body_str = match str_from_utf8(body) {
        Some(s) => s,
        None => {
            return Err(HttpError::Unknown);
        },
    };
    match parse_price(body_str) {
        Some(price) => Ok(price),
        None => Err(HttpError::Unknown),
    }
}

/// `price_from_response` where it reads the body without an overflow;
/// `None` where it would overflow.
pub fn try_price_from_response(code: u16, body: &[u8]) -> (price: Option<Result<u32, HttpError>>)
    ensures
        price is None <==> !response_ok(code, body@),
        price matches Some(p) ==> p == response_price(code, body@),
{
    if code != 200 {
        return Some(Err(HttpError::Unknown));
    }
    match str_from_utf8(body) {
        Some(s) => {
            if !price_text_parseable(s) {
                return None;
            }
        },
        None => {},
    }
    Some(price_from_response(code, body))
}

/// Where the reading stands after the character `c`.
fn next_scan(state: StringScan, c: char) -> (next: StringScan)
    ensures
        next == scan_step(state, c),
{
    match state {
        StringScan::Outside => if c == '"' {
            StringScan::Inside
        } else {
            StringScan::Outside
        },
        StringScan::Inside => if c == '"' {
            StringScan::Outside
        } else if c == '\\' {
            StringScan::Escaped
        } else {
            StringScan::Inside
        },
        StringScan::Escaped => StringScan::Inside,
    }
}

/// Whether `text` has no run of digits outside strings too long for the
/// JSON parser.
pub fn digit_runs_are_bounded(text: &str) -> (ok: bool)
    ensures
        ok == digit_runs_bounded(text@),
{
    let n = text.unicode_len();
    let mut chars: Vec<char> = Vec::new();
    for i in 0..n
        invariant
            n == text@.len(),
            chars@ == text@.take(i as int),
    {
        chars.push(text.get_char(i));
        assert(chars@ =~= text@.take(i + 1));
    }
    assert(chars@ =~= text@);
    let ghost t = text@;
    let mut run: usize = 0;
    let mut exponent_run = false;
    let mut state = StringScan::Outside;
    let mut i: usize = 0;
    while i < n
        invariant
            n == t.len(),
            t == text@,
            chars@ == t,
            i <= n,
            state == scan_state(t, i as int),
            run == trailing_digits(t, i as int),
            run < 20,
            exponent_run == after_exponent_mark(t, i - trailing_digits(t, i as int)),
            exponent_run ==> run < 10,
            forall|j: int| 0 <= j <= i ==> {
                &&& #[trigger] trailing_digits(t, j) < 20
                &&& after_exponent_mark(t, j - trailing_digits(t, j)) ==> trailing_digits(t, j) < 10
            },
        decreases n - i,
    {
        let c = chars[i];
        if '0' <= c && c <= '9' && state == StringScan::Outside {
            run = run + 1;
            assert(trailing_digits(t, i + 1) == trailing_digits(t, i as int) + 1);
            if run >= 20 || (exponent_run && run >= 10) {
                proof {
                    let j = (i + 1) as int;
                    assert(j - trailing_digits(t, j) == i - trailing_digits(t, i as int));
                    assert(!({
                        &&& trailing_digits(t, j) < 20
                        &&& after_exponent_mark(t, j - trailing_digits(t, j)) ==> trailing_digits(t, j) < 10
                    }));
                    assert(!digit_runs_bounded(t));
                }
                return false;
            }
        } else {
            run = 0;
            exponent_run = c == 'e' || c == 'E' || ((c == '+' || c == '-') && i >= 1 && (chars[i - 1]
                == 'e' || chars[i - 1] == 'E'));
            assert(trailing_digits(t, i + 1) == 0);
        }
        state = next_scan(state, c);
        assert(scan_state(t, i + 1) == scan_step(scan_state(t, i as int), t[i as int]));
        i = i + 1;
    }
    true
}

/// The cents of a price keep exactly the first two digits of its
/// fraction: with `k` digits beyond two, the fraction lies between the
/// cents times `10^k` and the next cent times `10^k`, and a fraction of at
/// most `fraction_length` digits gives fewer than a hundred cents. One
/// digit counts as tenths, none as zero cents.
pub proof fn lemma_cents_keep_two_fraction_digits(n: JsonNumber)
    ensures
        n.fraction_length >= 2 ==> {
            let unit = vstd::arithmetic::power::pow(10, (n.fraction_length - 2) as nat);
            &&& scaled_fraction(n) * unit <= n.fraction
            &&& n.fraction < (scaled_fraction(n) + 1) * unit
        },
        n.fraction_length >= 2 && n.fraction < vstd::arithmetic::power::pow(10, n.fraction_length as nat)
            ==> 0 <= scaled_fraction(n) < 100,
        n.fraction_length == 1 ==> scaled_fraction(n) == n.fraction * 10,
        n.fraction_length == 0 ==> scaled_fraction(n) == n.fraction * 100,
        cents_fit(n) && scaled_fraction(n) <= u32::MAX ==> cents_of(n) == (n.integer as u32) * 100
            + scaled_fraction(n),
{
    reveal_with_fuel(vstd::arithmetic::power::pow, 3);
    if n.fraction_length >= 2 {
        let k = (n.fraction_length - 2) as nat;
        let unit = vstd::arithmetic::power::pow(10, k);
        vstd::arithmetic::power::lemma_pow_positive(10, k);
        let f = n.fraction as int;
        vstd::arithmetic::div_mod::lemma_fundamental_div_mod(f, unit);
        vstd::arithmetic::div_mod::lemma_mod_pos_bound(f, unit);
        let q = f / unit;
        assert(q * unit <= f < (q + 1) * unit) by (nonlinear_arith)
            requires
                f == unit * q + f % unit,
                0 <= f % unit < unit,
        ;
        vstd::arithmetic::div_mod::lemma_div_pos_is_pos(f, unit);
        if n.fraction < vstd::arithmetic::power::pow(10, n.fraction_length as nat) {
            vstd::arithmetic::power::lemma_pow_adds(10, 2, k);
            assert(vstd::arithmetic::power::pow(10, 2) == 100);
            assert(q < 100) by (nonlinear_arith)
                requires
                    q * unit <= f,
                    f < 100 * unit,
                    unit > 0,
            ;
        }
    }
}

/// The `USD` member that counts is the first one: when there is one, its
/// value is what `first_usd` gives and no member before it is named
/// `USD`; when there is none, `first_usd` gives nothing.
pub proof fn lemma_first_usd_member_counts(members: Seq<(Seq<char>, JsonField)>)
    ensures
        first_usd(members) is None <==> forall|i: int| 0 <= i < members.len() ==> #[trigger] members[i].0
            != usd_key(),
        first_usd(members) is Some ==> exists|i: int|
            0 <= i < members.len() && #[trigger] members[i].0 == usd_key() && members[i].1 == first_usd(
                members,
            )->Some_0 && forall|j: int| 0 <= j < i ==> #[trigger] members[j].0 != usd_key(),
    decreases members.len(),
{
    if members.len() > 0 {
        let rest = members.drop_first();
        lemma_first_usd_member_counts(rest);
        assert forall|i: int| 0 <= i < rest.len() implies #[trigger] rest[i] == members[i + 1] by {}
        if members[0].0 == usd_key() {
            assert(members[0].0 == usd_key());
        } else if first_usd(rest) is Some {
            let k = choose|k: int|
                0 <= k < rest.len() && #[trigger] rest[k].0 == usd_key() && rest[k].1 == first_usd(rest)->Some_0
                    && forall|j: int| 0 <= j < k ==> #[trigger] rest[j].0 != usd_key();
            assert(members[k + 1].0 == usd_key());
            assert forall|j: int| 0 <= j < k + 1 implies #[trigger] members[j].0 != usd_key() by {
                if j > 0 {
                    assert(members[j] == rest[j - 1]);
                }
            }
        } else {
            assert forall|i: int| 0 <= i < members.len() implies #[trigger] members[i].0 != usd_key() by {
                if i > 0 {
                    assert(members[i] == rest[i - 1]);
                }
            }
        }
    }
}

} // verus!
