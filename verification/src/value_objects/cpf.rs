//! CPF, the Brazilian individual taxpayer number: eleven digits, the last
//! two of which are check digits.
use vstd::prelude::*;
use crate::text;

verus! {

/// Why a text is not a valid CPF.
#[derive(Debug, Clone, Copy, PartialEq, Eq, Structural)]
pub enum CpfError {
    InvalidLength,
    IdenticalDigits,
    InvalidChecksum,
    InvalidFormat,
}

/// The human-readable description of each CPF error.
pub open spec fn cpf_error_message(e: CpfError) -> Seq<char> {
    match e {
        CpfError::InvalidLength => "Invalid CPF length: expected 11 digits"@,
        CpfError::IdenticalDigits => "CPF cannot consist of identical digits"@,
        CpfError::InvalidChecksum => "Invalid CPF checksum"@,
        CpfError::InvalidFormat => "CPF must contain only digits or valid separators"@,
    }
}

impl CpfError {
    /// The description of this error.
    pub fn message(&self) -> (r: String)
        ensures
            r@ == cpf_error_message(*self),
    {
        match self {
            CpfError::InvalidLength => "Invalid CPF length: expected 11 digits".to_owned(),
            CpfError::IdenticalDigits => "CPF cannot consist of identical digits".to_owned(),
            CpfError::InvalidChecksum => "Invalid CPF checksum".to_owned(),
            CpfError::InvalidFormat => "CPF must contain only digits or valid separators".to_owned(),
        }
    }
}

/// `v[0] * top + v[1] * (top - 1) + ...`, over the first `k` values.
pub open spec fn cpf_weighted_sum(v: Seq<int>, top: int, k: nat) -> int
    decreases k,
{
    if k == 0 {
        0
    } else {
        cpf_weighted_sum(v, top, (k - 1) as nat) + v[k - 1] * (top - (k - 1))
    }
}

/// The check digit for a weighted sum: ten times the sum, modulo 11, with 10 read as 0.
pub open spec fn cpf_check_digit(sum: int) -> int {
    if (sum * 10) % 11 == 10 {
        0
    } else {
        (sum * 10) % 11
    }
}

/// The two CPF check digits of `v` are right: the tenth is the check digit of
/// the first nine weighted 10 down to 2, the eleventh that of the first ten
/// weighted 11 down to 2.
pub open spec fn cpf_checksum_ok(v: Seq<int>) -> bool {
    &&& v.len() == 11
    &&& cpf_check_digit(cpf_weighted_sum(v, 10, 9)) == v[9]
    &&& cpf_check_digit(cpf_weighted_sum(v, 11, 10)) == v[10]
}

/// `d` is a valid CPF: eleven digits, not all the same, with correct check digits.
pub open spec fn is_valid_cpf(d: Seq<char>) -> bool {
    &&& d.len() == 11
    &&& text::all_digits(d)
    &&& !text::all_same(d)
    &&& cpf_checksum_ok(text::digit_values(d))
}

/// What reading the text `s` as a CPF gives: its digits, once every other
/// character has been dropped, or the first rule that they break.
pub open spec fn cpf_parse(s: Seq<char>) -> Result<Seq<char>, CpfError> {
    let d = text::only_digits(s);
    if d.len() != 11 {
        Err(CpfError::InvalidLength)
    } else if text::all_same(d) {
        Err(CpfError::IdenticalDigits)
    } else if !cpf_checksum_ok(text::digit_values(d)) {
        Err(CpfError::InvalidChecksum)
    } else {
        Ok(d)
    }
}

/// The CPF `d` written as `ddd.ddd.ddd-dd`.
pub open spec fn cpf_formatted(d: Seq<char>) -> Seq<char> {
    d.subrange(0, 3) + seq!['.'] + d.subrange(3, 6) + seq!['.'] + d.subrange(6, 9) + seq!['-']
        + d.subrange(9, 11)
}

/// A valid CPF, held as its eleven digits.
#[derive(Debug, PartialEq, Eq)]
pub struct Cpf(String);

impl View for Cpf {
    type V = Seq<char>;

    closed spec fn view(&self) -> Seq<char> {
        self.0@
    }
}

impl Clone for Cpf {
    fn clone(&self) -> (r: Self)
        ensures
            r@ == self@,
    {
        proof {
            use_type_invariant(self);
        }
        Cpf(self.0.clone())
    }
}

impl Cpf {
    #[verifier::type_invariant]
    spec fn wf(self) -> bool {
        is_valid_cpf(self.0@)
    }

    /// Reads `value` as a CPF: separators and any other non-digit characters
    /// are dropped, and the digits that remain must form a valid CPF.
    pub fn new(value: &str) -> (r: Result<Cpf, CpfError>)
        ensures
            match r {
                Ok(cpf) => cpf_parse(value@) == Ok::<Seq<char>, CpfError>(cpf@) && is_valid_cpf(cpf@),
                Err(e) => cpf_parse(value@) == Err::<Seq<char>, CpfError>(e),
            },
    {
        let cleaned = text::digits_only(value);
        proof {
            text::lemma_only_digits_are_digits(value@);
        }
        if cleaned.as_str().unicode_len() != 11 {
            return Err(CpfError::InvalidLength);
        }
        if text::is_all_equal(cleaned.as_str()) {
            return Err(CpfError::IdenticalDigits);
        }
        let digits = text::to_digit_values(cleaned.as_str());
        assert(text::as_ints(digits@).len() == digits@.len());
        assert(digits@.subrange(0, 11) =~= digits@);
        if !validate_checksum(&digits) {
            return Err(CpfError::InvalidChecksum);
        }
        Ok(Cpf(cleaned))
    }

    /// The eleven digits.
    pub fn as_str(&self) -> (r: &str)
        ensures
            r@ == self@,
            is_valid_cpf(self@),
    {
        proof {
            use_type_invariant(self);
        }
        self.0.as_str()
    }

    /// The CPF written as `ddd.ddd.ddd-dd`.
    pub fn formatted(&self) -> (r: String)
        ensures
            r@ == cpf_formatted(self@),
    {
        proof {
            use_type_invariant(self);
        }
        let s = self.0.as_str();
        assert(s.is_ascii()) by {
            assert forall|i: int| 0 <= i < s@.len() implies '\0' <= #[trigger] s@[i] <= '\u{7f}' by {
                assert(text::is_digit_char(s@[i]));
            }
        }
        let mut r = s.substring_ascii(0, 3).to_owned();
        r.append(".");
        r.append(s.substring_ascii(3, 6));
        r.append(".");
        r.append(s.substring_ascii(6, 9));
        r.append("-");
        r.append(s.substring_ascii(9, 11));
        proof {
            reveal_strlit(".");
            reveal_strlit("-");
        }
        r
    }
}

impl std::str::FromStr for Cpf {
    type Err = CpfError;

    /// Reads a text as in `Cpf::new`.
    fn from_str(s: &str) -> (r: Result<Self, Self::Err>)
        ensures
            match r {
                Ok(v) => cpf_parse(s@) == Ok::<Seq<char>, CpfError>(v@),
                Err(e) => cpf_parse(s@) == Err::<Seq<char>, CpfError>(e),
            },
    {
        Self::new(s)
    }
}

impl TryFrom<String> for Cpf {
    type Error = CpfError;

    /// Reads a text as in `Cpf::new`.
    fn try_from(value: String) -> (r: Result<Self, Self::Error>)
        ensures
            match r {
                Ok(v) => cpf_parse(value@) == Ok::<Seq<char>, CpfError>(v@),
                Err(e) => cpf_parse(value@) == Err::<Seq<char>, CpfError>(e),
            },
    {
        Self::new(value.as_str())
    }
}

/// A CPF is known by its digits (its view) alone, so no spec function names
/// the exact value `try_from` returns: the general `TryFrom` law is not
/// claimed, and the contract of `try_from` above states the outcome.
impl vstd::std_specs::convert::TryFromSpecImpl<String> for Cpf {
    open spec fn obeys_try_from_spec() -> bool {
        false
    }

    open spec fn try_from_spec(v: String) -> Result<Self, CpfError> {
        match cpf_parse(v@) {
            Ok(_) => Ok(arbitrary()),
            Err(e) => Err(e),
        }
    }
}

/// The weighted sum of the first `k` values does not look past them.
pub proof fn lemma_cpf_weighted_sum_prefix(v: Seq<int>, w: Seq<int>, top: int, k: nat)
    requires
        k <= v.len(),
    ensures
        cpf_weighted_sum(v + w, top, k) == cpf_weighted_sum(v, top, k),
    decreases k,
{
    if k > 0 {
        lemma_cpf_weighted_sum_prefix(v, w, top, (k - 1) as nat);
        assert((v + w)[k - 1] == v[k - 1]);
    }
}

/// Any nine digits can be completed into a valid CPF: for every nine digit
/// values there are two decimal digits (each from 0 to 9) that are correct
/// check digits for them. Each check digit is the weighted sum times ten,
/// modulo 11, with a remainder of 10 read as 0.
pub proof fn lemma_cpf_check_digits_exist(v: Seq<int>)
    requires
        v.len() == 9,
        forall|i: int| 0 <= i < 9 ==> 0 <= #[trigger] v[i] <= 9,
    ensures
        exists|c1: int, c2: int|
            0 <= c1 <= 9 && 0 <= c2 <= 9 && #[trigger] cpf_checksum_ok(v.push(c1).push(c2)),
{
    let s1 = cpf_weighted_sum(v, 10, 9);
    let c1 = if (s1 * 10) % 11 == 10 { 0 } else { (s1 * 10) % 11 };
    let w = v.push(c1);
    let s2 = cpf_weighted_sum(w, 11, 10);
    let c2 = if (s2 * 10) % 11 == 10 { 0 } else { (s2 * 10) % 11 };
    let full = v + seq![c1, c2];
    assert(full =~= w + seq![c2]);
    assert(full =~= v.push(c1).push(c2));
    assert(v + seq![c1] =~= w);
    lemma_cpf_weighted_sum_prefix(v, seq![c1, c2], 10, 9);
    lemma_cpf_weighted_sum_prefix(w, seq![c2], 11, 10);
    assert(full[9] == c1);
    assert(full[10] == c2);
    assert(cpf_checksum_ok(full));
}

/// Ten times a sum modulo 11, with 10 read as 0, is the usual modulo-11
/// check digit: 0 when the sum leaves a remainder of 0 or 1, and 11 minus the
/// remainder otherwise.
proof fn lemma_cpf_check_digit_is_mod11(s: int)
    ensures
        cpf_check_digit(s) == (if s % 11 < 2 { 0 } else { 11 - s % 11 }),
{
    let r = s % 11;
    let q = s / 11;
    vstd::arithmetic::div_mod::lemma_fundamental_div_mod(s, 11);
    assert(0 <= r < 11);
    assert(s == 11 * q + r);
    if r == 0 {
        assert(s * 10 == (10 * q) * 11 + 0);
        vstd::arithmetic::div_mod::lemma_fundamental_div_mod_converse(s * 10, 11, 10 * q, 0);
    } else {
        assert(s * 10 == (10 * q + r - 1) * 11 + (11 - r));
        vstd::arithmetic::div_mod::lemma_fundamental_div_mod_converse(s * 10, 11, 10 * q + r - 1, 11 - r);
    }
}

/// The CPF check digits as they are usually written out: the tenth digit
/// checks the first nine weighted 10, 9, ..., 2, the eleventh the first ten
/// weighted 11, 10, ..., 2; each check digit is 0 when the weighted sum
/// leaves a remainder of 0 or 1 modulo 11, and 11 minus the remainder otherwise.
pub proof fn lemma_cpf_check_digits_standard(v: Seq<int>)
    requires
        v.len() == 11,
    ensures
        cpf_checksum_ok(v) <==> ({
            let s1 = 10 * v[0] + 9 * v[1] + 8 * v[2] + 7 * v[3] + 6 * v[4] + 5 * v[5] + 4 * v[6] + 3 * v[7] + 2 * v[8];
            let s2 = 11 * v[0] + 10 * v[1] + 9 * v[2] + 8 * v[3] + 7 * v[4] + 6 * v[5] + 5 * v[6] + 4 * v[7] + 3 * v[8] + 2 * v[9];
            &&& v[9] == (if s1 % 11 < 2 { 0 } else { 11 - s1 % 11 })
            &&& v[10] == (if s2 % 11 < 2 { 0 } else { 11 - s2 % 11 })
        }),
{
    assert(cpf_weighted_sum(v, 10, 0) == 0);
    assert(cpf_weighted_sum(v, 11, 0) == 0);
    assert(cpf_weighted_sum(v, 10, 1) == cpf_weighted_sum(v, 10, 0) + v[0] * (10 - 0));
    assert(cpf_weighted_sum(v, 10, 1) == 10 * v[0]);
    assert(cpf_weighted_sum(v, 10, 2) == cpf_weighted_sum(v, 10, 1) + v[1] * (10 - 1));
    assert(cpf_weighted_sum(v, 10, 2) == 10 * v[0] + 9 * v[1]);
    assert(cpf_weighted_sum(v, 10, 3) == cpf_weighted_sum(v, 10, 2) + v[2] * (10 - 2));
    assert(cpf_weighted_sum(v, 10, 3) == 10 * v[0] + 9 * v[1] + 8 * v[2]);
    assert(cpf_weighted_sum(v, 10, 4) == cpf_weighted_sum(v, 10, 3) + v[3] * (10 - 3));
    assert(cpf_weighted_sum(v, 10, 4) == 10 * v[0] + 9 * v[1] + 8 * v[2] + 7 * v[3]);
    assert(cpf_weighted_sum(v, 10, 5) == cpf_weighted_sum(v, 10, 4) + v[4] * (10 - 4));
    assert(cpf_weighted_sum(v, 10, 5) == 10 * v[0] + 9 * v[1] + 8 * v[2] + 7 * v[3] + 6 * v[4]);
    assert(cpf_weighted_sum(v, 10, 6) == cpf_weighted_sum(v, 10, 5) + v[5] * (10 - 5));
    assert(cpf_weighted_sum(v, 10, 6) == 10 * v[0] + 9 * v[1] + 8 * v[2] + 7 * v[3] + 6 * v[4] + 5 * v[5]);
    assert(cpf_weighted_sum(v, 10, 7) == cpf_weighted_sum(v, 10, 6) + v[6] * (10 - 6));
    assert(cpf_weighted_sum(v, 10, 7) == 10 * v[0] + 9 * v[1] + 8 * v[2] + 7 * v[3] + 6 * v[4] + 5 * v[5] + 4 * v[6]);
    assert(cpf_weighted_sum(v, 10, 8) == cpf_weighted_sum(v, 10, 7) + v[7] * (10 - 7));
    assert(cpf_weighted_sum(v, 10, 8) == 10 * v[0] + 9 * v[1] + 8 * v[2] + 7 * v[3] + 6 * v[4] + 5 * v[5] + 4 * v[6] + 3 * v[7]);
    assert(cpf_weighted_sum(v, 10, 9) == cpf_weighted_sum(v, 10, 8) + v[8] * (10 - 8));
    assert(cpf_weighted_sum(v, 10, 9) == 10 * v[0] + 9 * v[1] + 8 * v[2] + 7 * v[3] + 6 * v[4] + 5 * v[5] + 4 * v[6] + 3 * v[7] + 2 * v[8]);
    assert(cpf_weighted_sum(v, 11, 1) == cpf_weighted_sum(v, 11, 0) + v[0] * (11 - 0));
    assert(cpf_weighted_sum(v, 11, 1) == 11 * v[0]);
    assert(cpf_weighted_sum(v, 11, 2) == cpf_weighted_sum(v, 11, 1) + v[1] * (11 - 1));
    assert(cpf_weighted_sum(v, 11, 2) == 11 * v[0] + 10 * v[1]);
    assert(cpf_weighted_sum(v, 11, 3) == cpf_weighted_sum(v, 11, 2) + v[2] * (11 - 2));
    assert(cpf_weighted_sum(v, 11, 3) == 11 * v[0] + 10 * v[1] + 9 * v[2]);
    assert(cpf_weighted_sum(v, 11, 4) == cpf_weighted_sum(v, 11, 3) + v[3] * (11 - 3));
    assert(cpf_weighted_sum(v, 11, 4) == 11 * v[0] + 10 * v[1] + 9 * v[2] + 8 * v[3]);
    assert(cpf_weighted_sum(v, 11, 5) == cpf_weighted_sum(v, 11, 4) + v[4] * (11 - 4));
    assert(cpf_weighted_sum(v, 11, 5) == 11 * v[0] + 10 * v[1] + 9 * v[2] + 8 * v[3] + 7 * v[4]);
    assert(cpf_weighted_sum(v, 11, 6) == cpf_weighted_sum(v, 11, 5) + v[5] * (11 - 5));
    assert(cpf_weighted_sum(v, 11, 6) == 11 * v[0] + 10 * v[1] + 9 * v[2] + 8 * v[3] + 7 * v[4] + 6 * v[5]);
    assert(cpf_weighted_sum(v, 11, 7) == cpf_weighted_sum(v, 11, 6) + v[6] * (11 - 6));
    assert(cpf_weighted_sum(v, 11, 7) == 11 * v[0] + 10 * v[1] + 9 * v[2] + 8 * v[3] + 7 * v[4] + 6 * v[5] + 5 * v[6]);
    assert(cpf_weighted_sum(v, 11, 8) == cpf_weighted_sum(v, 11, 7) + v[7] * (11 - 7));
    assert(cpf_weighted_sum(v, 11, 8) == 11 * v[0] + 10 * v[1] + 9 * v[2] + 8 * v[3] + 7 * v[4] + 6 * v[5] + 5 * v[6] + 4 * v[7]);
    assert(cpf_weighted_sum(v, 11, 9) == cpf_weighted_sum(v, 11, 8) + v[8] * (11 - 8));
    assert(cpf_weighted_sum(v, 11, 9) == 11 * v[0] + 10 * v[1] + 9 * v[2] + 8 * v[3] + 7 * v[4] + 6 * v[5] + 5 * v[6] + 4 * v[7] + 3 * v[8]);
    assert(cpf_weighted_sum(v, 11, 10) == cpf_weighted_sum(v, 11, 9) + v[9] * (11 - 9));
    assert(cpf_weighted_sum(v, 11, 10) == 11 * v[0] + 10 * v[1] + 9 * v[2] + 8 * v[3] + 7 * v[4] + 6 * v[5] + 5 * v[6] + 4 * v[7] + 3 * v[8] + 2 * v[9]);
    lemma_cpf_check_digit_is_mod11(cpf_weighted_sum(v, 10, 9));
    lemma_cpf_check_digit_is_mod11(cpf_weighted_sum(v, 11, 10));
}

/// A valid CPF, read again, is accepted unchanged.
pub proof fn lemma_valid_cpf_reads_as_itself(d: Seq<char>)
    requires
        is_valid_cpf(d),
    ensures
        cpf_parse(d) == Ok::<Seq<char>, CpfError>(d),
{
    text::lemma_only_digits_of_digits(d);
}

/// Reading a text as a CPF depends on its digits alone: dropping every other
/// character first gives the same outcome.
pub proof fn lemma_cpf_reads_only_digits(s: Seq<char>)
    ensures
        cpf_parse(s) == cpf_parse(text::only_digits(s)),
{
    text::lemma_only_digits_are_digits(s);
    text::lemma_only_digits_of_digits(text::only_digits(s));
}

/// Whatever text is accepted, what it gives is a valid CPF.
pub proof fn lemma_cpf_accepts_only_valid(s: Seq<char>)
    ensures
        cpf_parse(s) matches Ok(d) ==> is_valid_cpf(d) && d == text::only_digits(s),
{
    text::lemma_only_digits_are_digits(s);
}

/// The formatted form of a valid CPF reads back as the same CPF.
pub proof fn lemma_cpf_formatted_reads_back(d: Seq<char>)
    requires
        is_valid_cpf(d),
    ensures
        cpf_parse(cpf_formatted(d)) == Ok::<Seq<char>, CpfError>(d),
{
    let p0 = d.subrange(0, 3);
    let p1 = d.subrange(3, 6);
    let p2 = d.subrange(6, 9);
    let p3 = d.subrange(9, 11);
    assert forall|i: int| 0 <= i < p0.len() implies #[trigger] text::is_digit_char(p0[i]) by {
        assert(text::is_digit_char(d[i]));
    }
    assert forall|i: int| 0 <= i < p1.len() implies #[trigger] text::is_digit_char(p1[i]) by {
        assert(text::is_digit_char(d[i + 3]));
    }
    assert forall|i: int| 0 <= i < p2.len() implies #[trigger] text::is_digit_char(p2[i]) by {
        assert(text::is_digit_char(d[i + 6]));
    }
    assert forall|i: int| 0 <= i < p3.len() implies #[trigger] text::is_digit_char(p3[i]) by {
        assert(text::is_digit_char(d[i + 9]));
    }
    text::lemma_only_digits_of_digits(p0);
    text::lemma_only_digits_of_digits(p1);
    text::lemma_only_digits_of_digits(p2);
    text::lemma_only_digits_of_digits(p3);
    text::lemma_only_digits_separator('.');
    text::lemma_only_digits_separator('-');
    let a1 = p0 + seq!['.'];
    let a2 = a1 + p1;
    let a3 = a2 + seq!['.'];
    let a4 = a3 + p2;
    let a5 = a4 + seq!['-'];
    let a6 = a5 + p3;
    text::lemma_only_digits_concat(p0, seq!['.']);
    text::lemma_only_digits_concat(a1, p1);
    text::lemma_only_digits_concat(a2, seq!['.']);
    text::lemma_only_digits_concat(a3, p2);
    text::lemma_only_digits_concat(a4, seq!['-']);
    text::lemma_only_digits_concat(a5, p3);
    assert(a6 == cpf_formatted(d));
    assert(text::only_digits(a6) =~= d);
    text::lemma_only_digits_of_digits(d);
}

/// Whether the first eleven digit values in `digits` carry correct check digits.
fn validate_checksum(digits: &Vec<u32>) -> (r: bool)
    requires
        digits@.len() >= 11,
        forall|i: int| 0 <= i < 11 ==> #[trigger] digits@[i] <= 9,
    ensures
        r == cpf_checksum_ok(text::as_ints(digits@.subrange(0, 11))),
{
    let ghost v = text::as_ints(digits@.subrange(0, 11));
    let mut sum: u32 = 0;
    let mut i: usize = 0;
    while i < 9
        invariant
            0 <= i <= 9,
            digits@.len() >= 11,
            v == text::as_ints(digits@.subrange(0, 11)),
            forall|j: int| 0 <= j < 11 ==> #[trigger] digits@[j] <= 9,
            sum == cpf_weighted_sum(v, 10, i as nat),
            sum <= 90 * i,
        decreases 9 - i,
    {
        let d = digits[i];
        let w: u32 = 10 - i as u32;
        assert(d * w <= 90) by (nonlinear_arith)
            requires
                d <= 9,
                w <= 10,
        ;
        sum = sum + d * w;
        i = i + 1;
    }
    let r1 = (sum * 10) % 11;
    let c1 = if r1 == 10 { 0 } else { r1 };
    if c1 != digits[9] {
        return false;
    }
    let mut sum2: u32 = 0;
    let mut k: usize = 0;
    while k < 10
        invariant
            0 <= k <= 10,
            digits@.len() >= 11,
            v == text::as_ints(digits@.subrange(0, 11)),
            forall|j: int| 0 <= j < 11 ==> #[trigger] digits@[j] <= 9,
            sum2 == cpf_weighted_sum(v, 11, k as nat),
            sum2 <= 99 * k,
        decreases 10 - k,
    {
        let d = digits[k];
        let w: u32 = 11 - k as u32;
        assert(d * w <= 99) by (nonlinear_arith)
            requires
                d <= 9,
                w <= 11,
        ;
        sum2 = sum2 + d * w;
        k = k + 1;
    }
    let r2 = (sum2 * 10) % 11;
    let c2 = if r2 == 10 { 0 } else { r2 };
    c2 == digits[10]
}

} // verus!
