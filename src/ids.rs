//! Typed resource ids and their wire text.
use crate::wire::{bad_request_spec, Error, ID};
use vstd::prelude::*;
use vstd::string::*;

verus! {

/// Whether `s` is a non-empty run of decimal digits.
pub open spec fn is_decimal_digits(s: Seq<char>) -> bool {
    &&& s.len() > 0
    &&& forall|i: int| 0 <= i < s.len() ==> '0' <= #[trigger] s[i] && s[i] <= '9'
}

/// The value of a decimal digit.
pub open spec fn digit_value(c: char) -> nat {
    ((c as u32) - ('0' as u32)) as nat
}

/// The number that a run of decimal digits spells.
pub open spec fn digits_value(s: Seq<char>) -> nat
    decreases s.len(),
{
    if s.len() == 0 {
        0
    } else {
        digits_value(s.drop_last()) * 10 + digit_value(s.last())
    }
}

/// The number that `s` spells as an optional `+` followed by decimal digits.
pub open spec fn unsigned_text_value(s: Seq<char>) -> Option<nat> {
    let d = if s.len() > 0 && s[0] == '+' {
        s.drop_first()
    } else {
        s
    };
    if is_decimal_digits(d) {
        Some(digits_value(d))
    } else {
        None
    }
}

/// The number that `s` spells as an optional sign followed by decimal digits.
pub open spec fn signed_text_value(s: Seq<char>) -> Option<int> {
    if s.len() > 0 && s[0] == '-' {
        if is_decimal_digits(s.drop_first()) {
            Some(-digits_value(s.drop_first()))
        } else {
            None
        }
    } else {
        match unsigned_text_value(s) {
            Some(n) => Some(n as int),
            None => None,
        }
    }
}

/// The `usize` that `s` is the text of, if it is one and it fits.
pub open spec fn usize_text_value(s: Seq<char>) -> Option<usize> {
    match unsigned_text_value(s) {
        Some(n) => if n <= usize::MAX {
            Some(n as usize)
        } else {
            None
        },
        None => None,
    }
}

/// The `isize` that `s` is the text of, if it is one and it fits.
pub open spec fn isize_text_value(s: Seq<char>) -> Option<isize> {
    match signed_text_value(s) {
        Some(n) => if isize::MIN <= n <= isize::MAX {
            Some(n as isize)
        } else {
            None
        },
        None => None,
    }
}

/// The decimal digit of value `d`.
pub open spec fn digit_char(d: nat) -> char {
    seq!['0', '1', '2', '3', '4', '5', '6', '7', '8', '9'][d as int]
}

/// The decimal text of `n`, without leading zeros.
pub open spec fn decimal_text(n: nat) -> Seq<char>
    decreases n,
{
    if n < 10 {
        seq![digit_char(n)]
    } else {
        decimal_text(n / 10).push(digit_char(n % 10))
    }
}

/// The decimal text of `n`, with a leading `-` when it is negative.
pub open spec fn signed_decimal_text(n: int) -> Seq<char> {
    if n < 0 {
        seq!['-'] + decimal_text((-n) as nat)
    } else {
        decimal_text(n as nat)
    }
}

/// What `uuid::Uuid::parse_str` makes of a text: the UUID's 128-bit value, or
/// the text of its error.
pub uninterp spec fn uuid_parsed(s: Seq<char>) -> Result<u128, Seq<char>>;

/// The lower-case hexadecimal digit of value `d`.
pub open spec fn hex_char(d: u128) -> char {
    seq!['0', '1', '2', '3', '4', '5', '6', '7', '8', '9', 'a', 'b', 'c', 'd', 'e', 'f'][d as int]
}

/// How many hexadecimal digits come before position `k` of a hyphenated UUID.
pub open spec fn uuid_digit_index(k: int) -> int {
    if k < 8 {
        k
    } else if k < 13 {
        k - 1
    } else if k < 18 {
        k - 2
    } else if k < 23 {
        k - 3
    } else {
        k - 4
    }
}

/// The hyphenated lower-case text of a UUID of 128-bit value `v`: its 32
/// hexadecimal digits, most significant first, with hyphens after the 8th,
/// 12th, 16th and 20th digit.
pub open spec fn uuid_text(v: u128) -> Seq<char> {
    Seq::new(
        36,
        |k: int|
            if k == 8 || k == 13 || k == 18 || k == 23 {
                '-'
            } else {
                hex_char((v >> ((124 - 4 * uuid_digit_index(k)) as u128)) & 15)
            },
    )
}

/// Relies on `str::parse::<usize>`: an optional `+` and decimal digits whose
/// value fits in a `usize`, and nothing else, is accepted.
#[verifier::external_body]
fn parse_usize(s: &str) -> (r: Option<usize>)
    ensures
        r == usize_text_value(s@),
{
    s.parse::<usize>().ok()
}

/// Relies on `str::parse::<isize>`: an optional `+` or `-` and decimal digits
/// whose value fits in an `isize`, and nothing else, is accepted.
#[verifier::external_body]
fn parse_isize(s: &str) -> (r: Option<isize>)
    ensures
        r == isize_text_value(s@),
{
    s.parse::<isize>().ok()
}

/// Relies on `ToString` for `usize`: its decimal text.
#[verifier::external_body]
fn usize_text(n: usize) -> (r: String)
    ensures
        r@ == decimal_text(n as nat),
{
    n.to_string()
}

/// Relies on `ToString` for `isize`: its decimal text, signed.
#[verifier::external_body]
fn isize_text(n: isize) -> (r: String)
    ensures
        r@ == signed_decimal_text(n as int),
{
    n.to_string()
}

/// Relies on `uuid::Uuid::parse_str`: the UUID's value, or its error as text.
#[verifier::external_body]
fn parse_uuid(s: &str) -> (r: Result<u128, String>)
    ensures
        match r {
            Ok(v) => uuid_parsed(s@) == Ok::<u128, Seq<char>>(v),
            Err(e) => uuid_parsed(s@) == Err::<u128, Seq<char>>(e@),
        },
{
    match uuid::Uuid::parse_str(s) {
        Ok(u) => Ok(u.as_u128()),
        Err(e) => Err(e.to_string()),
    }
}

/// Relies on `Display` for `uuid::Uuid`, which writes the hyphenated form,
/// and on `uuid::Uuid::parse_str`, which reads every form the crate writes.
#[verifier::external_body]
fn format_uuid(v: u128) -> (r: String)
    ensures
        r@ == uuid_text(v),
        uuid_parsed(r@) is Ok && uuid_parsed(r@)->Ok_0 == v,
{
    uuid::Uuid::from_u128(v).to_string()
}

/// A UUID, held as its 128-bit big-endian value.
#[derive(Debug, Clone, Copy, PartialEq, Eq, Structural)]
pub struct Uuid(pub u128);

/// A type whose values can be read from the wire text of an id.
pub trait FromID: Sized {
    /// Whether `text` is the wire text of a value of this type.
    spec fn id_accepts(text: Seq<char>) -> bool;

    /// Whether `v` is the value that `text` stands for.
    spec fn id_decodes_to(text: Seq<char>, v: Self) -> bool;

    /// The title of the error that rejects `text`.
    spec fn id_rejection(text: Seq<char>) -> Seq<char>;

    /// Reads a value from the wire text of `id`; unreadable text is a bad request.
    fn from_id(id: ID) -> (r: Result<Self, Error>)
        ensures
            r is Ok <==> Self::id_accepts(id@),
            r matches Ok(v) ==> Self::id_decodes_to(id@, v),
            r matches Err(e) ==> e@ == bad_request_spec(Self::id_rejection(id@)),
    ;
}

/// A type whose values have the wire text of an id.
pub trait IntoID: Sized {
    /// The wire text of this value.
    spec fn id_text(&self) -> Seq<char>;

    /// The id whose wire text stands for this value.
    fn into_id(self) -> (r: ID)
        ensures
            r@ == self.id_text(),
    ;
}

impl FromID for String {
    open spec fn id_accepts(text: Seq<char>) -> bool {
        true
    }

    open spec fn id_decodes_to(text: Seq<char>, v: String) -> bool {
        v@ == text
    }

    open spec fn id_rejection(text: Seq<char>) -> Seq<char> {
        Seq::empty()
    }

    fn from_id(id: ID) -> (r: Result<String, Error>) {
        Ok(id.0)
    }
}

impl FromID for ID {
    open spec fn id_accepts(text: Seq<char>) -> bool {
        true
    }

    open spec fn id_decodes_to(text: Seq<char>, v: ID) -> bool {
        v@ == text
    }

    open spec fn id_rejection(text: Seq<char>) -> Seq<char> {
        Seq::empty()
    }

    fn from_id(id: ID) -> (r: Result<ID, Error>) {
        Ok(id)
    }
}

/// The title of the error for text that is no unsigned integer id.
pub open spec fn unsigned_rejection(text: Seq<char>) -> Seq<char> {
    "invalid value for unsigned id value: "@ + text
}

/// The title of the error for text that is no integer id.
pub open spec fn integer_rejection(text: Seq<char>) -> Seq<char> {
    "invalid value for integer id value: "@ + text
}

/// The title of the error for text that is no UUID.
pub open spec fn uuid_rejection(text: Seq<char>) -> Seq<char> {
    match uuid_parsed(text) {
        Ok(_) => Seq::empty(),
        Err(e) => "invalid value for UUID id value: "@ + e,
    }
}

/// A bad request whose title is `prefix` followed by `text`.
fn bad_request_with(prefix: &str, text: &str) -> (r: Error)
    ensures
        r@ == bad_request_spec(prefix@ + text@),
{
    let mut title = prefix.to_owned();
    title.append(text);
    Error::new_bad_request(title.as_str())
}

impl FromID for usize {
    open spec fn id_accepts(text: Seq<char>) -> bool {
        usize_text_value(text) is Some
    }

    open spec fn id_decodes_to(text: Seq<char>, v: usize) -> bool {
        usize_text_value(text) == Some(v)
    }

    open spec fn id_rejection(text: Seq<char>) -> Seq<char> {
        unsigned_rejection(text)
    }

    fn from_id(id: ID) -> (r: Result<usize, Error>) {
        match parse_usize(id.as_str()) {
            Some(v) => Ok(v),
            None => Err(bad_request_with("invalid value for unsigned id value: ", id.as_str())),
        }
    }
}

impl FromID for isize {
    open spec fn id_accepts(text: Seq<char>) -> bool {
        isize_text_value(text) is Some
    }

    open spec fn id_decodes_to(text: Seq<char>, v: isize) -> bool {
        isize_text_value(text) == Some(v)
    }

    open spec fn id_rejection(text: Seq<char>) -> Seq<char> {
        integer_rejection(text)
    }

    fn from_id(id: ID) -> (r: Result<isize, Error>) {
        match parse_isize(id.as_str()) {
            Some(v) => Ok(v),
            None => Err(bad_request_with("invalid value for integer id value: ", id.as_str())),
        }
    }
}

impl FromID for Uuid {
    open spec fn id_accepts(text: Seq<char>) -> bool {
        uuid_parsed(text) is Ok
    }

    open spec fn id_decodes_to(text: Seq<char>, v: Uuid) -> bool {
        uuid_parsed(text) == Ok::<u128, Seq<char>>(v.0)
    }

    open spec fn id_rejection(text: Seq<char>) -> Seq<char> {
        uuid_rejection(text)
    }

    fn from_id(id: ID) -> (r: Result<Uuid, Error>) {
        match parse_uuid(id.as_str()) {
            Ok(v) => Ok(Uuid(v)),
            Err(e) => Err(bad_request_with("invalid value for UUID id value: ", e.as_str())),
        }
    }
}

impl IntoID for String {
    open spec fn id_text(&self) -> Seq<char> {
        self@
    }

    fn into_id(self) -> (r: ID) {
        ID(self)
    }
}

impl IntoID for ID {
    open spec fn id_text(&self) -> Seq<char> {
        self@
    }

    fn into_id(self) -> (r: ID) {
        self
    }
}

impl IntoID for usize {
    open spec fn id_text(&self) -> Seq<char> {
        decimal_text(*self as nat)
    }

    fn into_id(self) -> (r: ID) {
        ID(usize_text(self))
    }
}

impl IntoID for isize {
    open spec fn id_text(&self) -> Seq<char> {
        signed_decimal_text(*self as int)
    }

    fn into_id(self) -> (r: ID) {
        ID(isize_text(self))
    }
}

impl IntoID for Uuid {
    open spec fn id_text(&self) -> Seq<char> {
        uuid_text(self.0)
    }

    /// The id text of a UUID reads back as the same UUID.
    fn into_id(self) -> (r: ID)
        ensures
            <Uuid as FromID>::id_decodes_to(r@, self),
    {
        ID(format_uuid(self.0))
    }
}

proof fn lemma_digit_round_trip(d: nat)
    requires
        d < 10,
    ensures
        digit_value(digit_char(d)) == d,
        '0' <= digit_char(d) <= '9',
{
    let s = seq!['0', '1', '2', '3', '4', '5', '6', '7', '8', '9'];
    assert(s[d as int] == digit_char(d));
}

/// The decimal text of `n` is a run of digits that spells `n`.
proof fn lemma_decimal_text(n: nat)
    ensures
        is_decimal_digits(decimal_text(n)),
        digits_value(decimal_text(n)) == n,
    decreases n,
{
    if n < 10 {
        lemma_digit_round_trip(n);
        let t = decimal_text(n);
        assert(t.drop_last() =~= Seq::<char>::empty());
        assert(digits_value(Seq::<char>::empty()) == 0);
        assert(digits_value(t) == digits_value(t.drop_last()) * 10 + digit_value(t.last()));
    } else {
        lemma_decimal_text(n / 10);
        lemma_digit_round_trip(n % 10);
        let prefix = decimal_text(n / 10);
        let t = decimal_text(n);
        assert(t.drop_last() =~= prefix);
        assert(t.last() == digit_char(n % 10));
        assert(digits_value(t) == digits_value(prefix) * 10 + digit_value(t.last()));
        assert((n / 10) * 10 + n % 10 == n) by (nonlinear_arith);
        assert forall|i: int| 0 <= i < t.len() implies '0' <= #[trigger] t[i] && t[i] <= '9' by {
            if i < prefix.len() {
                assert(t[i] == prefix[i]);
            }
        }
    }
}

/// Reading back the id text of a `usize` gives the same `usize`.
pub proof fn lemma_usize_id_round_trip(n: usize)
    ensures
        <usize as FromID>::id_accepts(n.id_text()),
        <usize as FromID>::id_decodes_to(n.id_text(), n),
{
    lemma_decimal_text(n as nat);
    let t = decimal_text(n as nat);
    assert('0' <= t[0] <= '9');
}

/// Reading back the id text of an `isize` gives the same `isize`.
pub proof fn lemma_isize_id_round_trip(n: isize)
    ensures
        <isize as FromID>::id_accepts(n.id_text()),
        <isize as FromID>::id_decodes_to(n.id_text(), n),
{
    if n < 0 {
        lemma_decimal_text((-n) as nat);
        let t = seq!['-'] + decimal_text((-n) as nat);
        assert(t.drop_first() =~= decimal_text((-n) as nat));
    } else {
        lemma_decimal_text(n as nat);
        let t = decimal_text(n as nat);
        assert('0' <= t[0] <= '9');
    }
}

} // verus!
