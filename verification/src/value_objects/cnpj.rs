//! CNPJ, the Brazilian company taxpayer number: fourteen digits, the last
//! two of which are check digits.
use vstd::prelude::*;
use crate::text;

verus! {

/// Why a text is not a valid CNPJ.
#[derive(Debug, Clone, Copy, PartialEq, Eq, Structural)]
pub enum CnpjError {
    InvalidLength,
    IdenticalDigits,
    InvalidChecksum,
    InvalidFormat,
}

/// The human-readable description of each CNPJ error.
pub open spec fn cnpj_error_message(e: CnpjError) -> Seq<char> {
    match e {
        CnpjError::InvalidLength => "Invalid CNPJ length: expected 14 digits"@,
        CnpjError::IdenticalDigits => "CNPJ cannot consist of identical digits"@,
        CnpjError::InvalidChecksum => "Invalid CNPJ checksum"@,
        CnpjError::InvalidFormat => "CNPJ must contain only digits or valid separators"@,
    }
}

impl CnpjError {
    /// The description of this error.
    pub fn message(&self) -> (r: String)
        ensures
            r@ == cnpj_error_message(*self),
    {
        match self {
            CnpjError::InvalidLength => "Invalid CNPJ length: expected 14 digits".to_owned(),
            CnpjError::IdenticalDigits => "CNPJ cannot consist of identical digits".to_owned(),
            CnpjError::InvalidChecksum => "Invalid CNPJ checksum".to_owned(),
            CnpjError::InvalidFormat => "CNPJ must contain only digits or valid separators".to_owned(),
        }
    }
}

/// The CNPJ weight of position `i` when the last position weighed is `top`:
/// weights run 2, 3, ..., 9 from that position leftwards, then start again at 2.
pub open spec fn cnpj_weight(top: int, i: int) -> int {
    2 + (top - i) % 8
}

/// `v[0] * cnpj_weight(top, 0) + v[1] * cnpj_weight(top, 1) + ...`, over the first `k` values.
pub open spec fn cnpj_weighted_sum(v: Seq<int>, top: int, k: nat) -> int
    decreases k,
{
    if k == 0 {
        0
    } else {
        cnpj_weighted_sum(v, top, (k - 1) as nat) + v[k - 1] * cnpj_weight(top, k - 1)
    }
}

/// The check digit for a weighted sum: 0 when the sum modulo 11 is below 2,
/// else 11 minus it.
pub open spec fn cnpj_check_digit(sum: int) -> int {
    if sum % 11 < 2 {
        0
    } else {
        11 - sum % 11
    }
}

/// The two CNPJ check digits of `v` are right: the thirteenth is the check
/// digit of the first twelve weighted 5, 4, 3, 2, 9, 8, 7, 6, 5, 4, 3, 2, the
/// fourteenth that of the first thirteen weighted 6, 5, 4, 3, 2, 9, 8, 7, 6,
/// 5, 4, 3, 2.
pub open spec fn cnpj_checksum_ok(v: Seq<int>) -> bool {
    &&& v.len() == 14
    &&& cnpj_check_digit(cnpj_weighted_sum(v, 11, 12)) == v[12]
    &&& cnpj_check_digit(cnpj_weighted_sum(v, 12, 13)) == v[13]
}

/// `d` is a valid CNPJ: fourteen digits, not all the same, with correct check digits.
pub open spec fn is_valid_cnpj(d: Seq<char>) -> bool {
    &&& d.len() == 14
    &&& text::all_digits(d)
    &&& !text::all_same(d)
    &&& cnpj_checksum_ok(text::digit_values(d))
}

/// What reading the text `s` as a CNPJ gives: its digits, once every other
/// character has been dropped, or the first rule that they break.
pub open spec fn cnpj_parse(s: Seq<char>) -> Result<Seq<char>, CnpjError> {
    let d = text::only_digits(s);
    if d.len() != 14 {
        Err(CnpjError::InvalidLength)
    } else if text::all_same(d) {
        Err(CnpjError::IdenticalDigits)
    } else if !cnpj_checksum_ok(text::digit_values(d)) {
        Err(CnpjError::InvalidChecksum)
    } else {
        Ok(d)
    }
}

/// The CNPJ `d` written as `dd.ddd.ddd/dddd-dd`.
pub open spec fn cnpj_formatted(d: Seq<char>) -> Seq<char> {
    d.subrange(0, 2) + seq!['.'] + d.subrange(2, 5) + seq!['.'] + d.subrange(5, 8) + seq!['/']
        + d.subrange(8, 12) + seq!['-'] + d.subrange(12, 14)
}

/// A valid CNPJ, held as its fourteen digits.
#[derive(Debug, PartialEq, Eq)]
pub struct Cnpj(String);

impl View for Cnpj {
    type V = Seq<char>;

    closed spec fn view(&self) -> Seq<char> {
        self.0@
    }
}

impl Clone for Cnpj {
    fn clone(&self) -> (r: Self)
        ensures
            r@ == self@,
    {
        proof {
            use_type_invariant(self);
        }
        Cnpj(self.0.clone())
    }
}

impl Cnpj {
    #[verifier::type_invariant]
    spec fn wf(self) -> bool {
        is_valid_cnpj(self.0@)
    }

    /// Reads `value` as a CNPJ: separators and any other non-digit characters
    /// are dropped, and the digits that remain must form a valid CNPJ.
    pub fn new(value: &str) -> (r: Result<Cnpj, CnpjError>)
        ensures
            match r {
                Ok(cnpj) => cnpj_parse(value@) == Ok::<Seq<char>, CnpjError>(cnpj@) && is_valid_cnpj(cnpj@),
                Err(e) => cnpj_parse(value@) == Err::<Seq<char>, CnpjError>(e),
            },
    {
        let cleaned = text::digits_only(value);
        proof {
            text::lemma_only_digits_are_digits(value@);
        }
        if cleaned.as_str().unicode_len() != 14 {
            return Err(CnpjError::InvalidLength);
        }
        if text::is_all_equal(cleaned.as_str()) {
            return Err(CnpjError::IdenticalDigits);
        }
        let digits = text::to_digit_values(cleaned.as_str());
        assert(text::as_ints(digits@).len() == digits@.len());
        assert(digits@.subrange(0, 14) =~= digits@);
        if !validate_checksum(&digits) {
            return Err(CnpjError::InvalidChecksum);
        }
        Ok(Cnpj(cleaned))
    }

    /// The fourteen digits.
    pub fn as_str(&self) -> (r: &str)
        ensures
            r@ == self@,
            is_valid_cnpj(self@),
    {
        proof {
            use_type_invariant(self);
        }
        self.0.as_str()
    }

    /// The CNPJ written as `dd.ddd.ddd/dddd-dd`.
    pub fn formatted_correctly(&self) -> (r: String)
        ensures
            r@ == cnpj_formatted(self@),
    {
        proof {
            use_type_invariant(self);
        }
        let s = self.0.as_str();
        assert(s.is_ascii()) by {
            assert forall|i: int| 0 <= i < s@.len() implies '\0' <= #[trigger] s@[i] <= '\u{7f}' by {
                assert(text::is_digit_char(s@[i]));
            }
        }
        let mut r = s.substring_ascii(0, 2).to_owned();
        r.append(".");
        r.append(s.substring_ascii(2, 5));
        r.append(".");
        r.append(s.substring_ascii(5, 8));
        r.append("/");
        r.append(s.substring_ascii(8, 12));
        r.append("-");
        r.append(s.substring_ascii(12, 14));
        proof {
            reveal_strlit(".");
            reveal_strlit("/");
            reveal_strlit("-");
        }
        r
    }
}

impl std::str::FromStr for Cnpj {
    type Err = CnpjError;

    /// Reads a text as in `Cnpj::new`.
    fn from_str(s: &str) -> (r: Result<Self, Self::Err>)
        ensures
            match r {
                Ok(v) => cnpj_parse(s@) == Ok::<Seq<char>, CnpjError>(v@),
                Err(e) => cnpj_parse(s@) == Err::<Seq<char>, CnpjError>(e),
            },
    {
        Self::new(s)
    }
}

impl TryFrom<String> for Cnpj {
    type Error = CnpjError;

    /// Reads a text as in `Cnpj::new`.
    fn try_from(value: String) -> (r: Result<Self, Self::Error>)
        ensures
            match r {
                Ok(v) => cnpj_parse(value@) == Ok::<Seq<char>, CnpjError>(v@),
                Err(e) => cnpj_parse(value@) == Err::<Seq<char>, CnpjError>(e),
            },
    {
        Self::new(value.as_str())
    }
}

/// A CNPJ is known by its digits (its view) alone, so no spec function names
/// the exact value `try_from` returns: the general `TryFrom` law is not
/// claimed, and the contract of `try_from` above states the outcome.
impl vstd::std_specs::convert::TryFromSpecImpl<String> for Cnpj {
    open spec fn obeys_try_from_spec() -> bool {
        false
    }

    open spec fn try_from_spec(v: String) -> Result<Self, CnpjError> {
        match cnpj_parse(v@) {
            Ok(_) => Ok(arbitrary()),
            Err(e) => Err(e),
        }
    }
}

/// The weighted sum of the first `k` values does not look past them.
pub proof fn lemma_cnpj_weighted_sum_prefix(v: Seq<int>, w: Seq<int>, top: int, k: nat)
    requires
        k <= v.len(),
    ensures
        cnpj_weighted_sum(v + w, top, k) == cnpj_weighted_sum(v, top, k),
    decreases k,
{
    if k > 0 {
        lemma_cnpj_weighted_sum_prefix(v, w, top, (k - 1) as nat);
        assert((v + w)[k - 1] == v[k - 1]);
    }
}

/// Any twelve digits can be completed into a valid CNPJ: for every twelve
/// digit values there are two decimal digits (each from 0 to 9) that are
/// correct check digits for them. Each check digit is 0 when the weighted sum
/// modulo 11 is 0 or 1, and 11 minus that remainder otherwise.
pub proof fn lemma_cnpj_check_digits_exist(v: Seq<int>)
    requires
        v.len() == 12,
        forall|i: int| 0 <= i < 12 ==> 0 <= #[trigger] v[i] <= 9,
    ensures
        exists|c1: int, c2: int|
            0 <= c1 <= 9 && 0 <= c2 <= 9 && #[trigger] cnpj_checksum_ok(v.push(c1).push(c2)),
{
    let s1 = cnpj_weighted_sum(v, 11, 12);
    let c1 = if s1 % 11 < 2 { 0 } else { 11 - s1 % 11 };
    let w = v.push(c1);
    let s2 = cnpj_weighted_sum(w, 12, 13);
    let c2 = if s2 % 11 < 2 { 0 } else { 11 - s2 % 11 };
    let full = v + seq![c1, c2];
    assert(full =~= w + seq![c2]);
    assert(full =~= v.push(c1).push(c2));
    assert(v + seq![c1] =~= w);
    lemma_cnpj_weighted_sum_prefix(v, seq![c1, c2], 11, 12);
    lemma_cnpj_weighted_sum_prefix(w, seq![c2], 12, 13);
    assert(full[12] == c1);
    assert(full[13] == c2);
    assert(cnpj_checksum_ok(full));
}

/// The CNPJ check digits as they are usually written out: the thirteenth
/// digit checks the first twelve weighted 5, 4, 3, 2, 9, 8, 7, 6, 5, 4, 3, 2,
/// the fourteenth the first thirteen weighted 6, 5, 4, 3, 2, 9, 8, 7, 6, 5,
/// 4, 3, 2; each check digit is 0 when the weighted sum leaves a remainder of
/// 0 or 1 modulo 11, and 11 minus the remainder otherwise.
pub proof fn lemma_cnpj_check_digits_standard(v: Seq<int>)
    requires
        v.len() == 14,
    ensures
        cnpj_checksum_ok(v) <==> ({
            let s1 = 5 * v[0] + 4 * v[1] + 3 * v[2] + 2 * v[3] + 9 * v[4] + 8 * v[5] + 7 * v[6] + 6 * v[7] + 5 * v[8] + 4 * v[9] + 3 * v[10] + 2 * v[11];
            let s2 = 6 * v[0] + 5 * v[1] + 4 * v[2] + 3 * v[3] + 2 * v[4] + 9 * v[5] + 8 * v[6] + 7 * v[7] + 6 * v[8] + 5 * v[9] + 4 * v[10] + 3 * v[11] + 2 * v[12];
            &&& v[12] == (if s1 % 11 < 2 { 0 } else { 11 - s1 % 11 })
            &&& v[13] == (if s2 % 11 < 2 { 0 } else { 11 - s2 % 11 })
        }),
{
    assert(cnpj_weighted_sum(v, 11, 0) == 0);
    assert(cnpj_weighted_sum(v, 12, 0) == 0);
    assert(cnpj_weight(11, 0) == 5);
    assert(cnpj_weighted_sum(v, 11, 1) == cnpj_weighted_sum(v, 11, 0) + v[0] * cnpj_weight(11, 0));
    assert(cnpj_weighted_sum(v, 11, 1) == 5 * v[0]);
    assert(cnpj_weight(11, 1) == 4);
    assert(cnpj_weighted_sum(v, 11, 2) == cnpj_weighted_sum(v, 11, 1) + v[1] * cnpj_weight(11, 1));
    assert(cnpj_weighted_sum(v, 11, 2) == 5 * v[0] + 4 * v[1]);
    assert(cnpj_weight(11, 2) == 3);
    assert(cnpj_weighted_sum(v, 11, 3) == cnpj_weighted_sum(v, 11, 2) + v[2] * cnpj_weight(11, 2));
    assert(cnpj_weighted_sum(v, 11, 3) == 5 * v[0] + 4 * v[1] + 3 * v[2]);
    assert(cnpj_weight(11, 3) == 2);
    assert(cnpj_weighted_sum(v, 11, 4) == cnpj_weighted_sum(v, 11, 3) + v[3] * cnpj_weight(11, 3));
    assert(cnpj_weighted_sum(v, 11, 4) == 5 * v[0] + 4 * v[1] + 3 * v[2] + 2 * v[3]);
    assert(cnpj_weight(11, 4) == 9);
    assert(cnpj_weighted_sum(v, 11, 5) == cnpj_weighted_sum(v, 11, 4) + v[4] * cnpj_weight(11, 4));
    assert(cnpj_weighted_sum(v, 11, 5) == 5 * v[0] + 4 * v[1] + 3 * v[2] + 2 * v[3] + 9 * v[4]);
    assert(cnpj_weight(11, 5) == 8);
    assert(cnpj_weighted_sum(v, 11, 6) == cnpj_weighted_sum(v, 11, 5) + v[5] * cnpj_weight(11, 5));
    assert(cnpj_weighted_sum(v, 11, 6) == 5 * v[0] + 4 * v[1] + 3 * v[2] + 2 * v[3] + 9 * v[4] + 8 * v[5]);
    assert(cnpj_weight(11, 6) == 7);
    assert(cnpj_weighted_sum(v, 11, 7) == cnpj_weighted_sum(v, 11, 6) + v[6] * cnpj_weight(11, 6));
    assert(cnpj_weighted_sum(v, 11, 7) == 5 * v[0] + 4 * v[1] + 3 * v[2] + 2 * v[3] + 9 * v[4] + 8 * v[5] + 7 * v[6]);
    assert(cnpj_weight(11, 7) == 6);
    assert(cnpj_weighted_sum(v, 11, 8) == cnpj_weighted_sum(v, 11, 7) + v[7] * cnpj_weight(11, 7));
    assert(cnpj_weighted_sum(v, 11, 8) == 5 * v[0] + 4 * v[1] + 3 * v[2] + 2 * v[3] + 9 * v[4] + 8 * v[5] + 7 * v[6] + 6 * v[7]);
    assert(cnpj_weight(11, 8) == 5);
    assert(cnpj_weighted_sum(v, 11, 9) == cnpj_weighted_sum(v, 11, 8) + v[8] * cnpj_weight(11, 8));
    assert(cnpj_weighted_sum(v, 11, 9) == 5 * v[0] + 4 * v[1] + 3 * v[2] + 2 * v[3] + 9 * v[4] + 8 * v[5] + 7 * v[6] + 6 * v[7] + 5 * v[8]);
    assert(cnpj_weight(11, 9) == 4);
    assert(cnpj_weighted_sum(v, 11, 10) == cnpj_weighted_sum(v, 11, 9) + v[9] * cnpj_weight(11, 9));
    assert(cnpj_weighted_sum(v, 11, 10) == 5 * v[0] + 4 * v[1] + 3 * v[2] + 2 * v[3] + 9 * v[4] + 8 * v[5] + 7 * v[6] + 6 * v[7] + 5 * v[8] + 4 * v[9]);
    assert(cnpj_weight(11, 10) == 3);
    assert(cnpj_weighted_sum(v, 11, 11) == cnpj_weighted_sum(v, 11, 10) + v[10] * cnpj_weight(11, 10));
    assert(cnpj_weighted_sum(v, 11, 11) == 5 * v[0] + 4 * v[1] + 3 * v[2] + 2 * v[3] + 9 * v[4] + 8 * v[5] + 7 * v[6] + 6 * v[7] + 5 * v[8] + 4 * v[9] + 3 * v[10]);
    assert(cnpj_weight(11, 11) == 2);
    assert(cnpj_weighted_sum(v, 11, 12) == cnpj_weighted_sum(v, 11, 11) + v[11] * cnpj_weight(11, 11));
    assert(cnpj_weighted_sum(v, 11, 12) == 5 * v[0] + 4 * v[1] + 3 * v[2] + 2 * v[3] + 9 * v[4] + 8 * v[5] + 7 * v[6] + 6 * v[7] + 5 * v[8] + 4 * v[9] + 3 * v[10] + 2 * v[11]);
    assert(cnpj_weight(12, 0) == 6);
    assert(cnpj_weighted_sum(v, 12, 1) == cnpj_weighted_sum(v, 12, 0) + v[0] * cnpj_weight(12, 0));
    assert(cnpj_weighted_sum(v, 12, 1) == 6 * v[0]);
    assert(cnpj_weight(12, 1) == 5);
    assert(cnpj_weighted_sum(v, 12, 2) == cnpj_weighted_sum(v, 12, 1) + v[1] * cnpj_weight(12, 1));
    assert(cnpj_weighted_sum(v, 12, 2) == 6 * v[0] + 5 * v[1]);
    assert(cnpj_weight(12, 2) == 4);
    assert(cnpj_weighted_sum(v, 12, 3) == cnpj_weighted_sum(v, 12, 2) + v[2] * cnpj_weight(12, 2));
    assert(cnpj_weighted_sum(v, 12, 3) == 6 * v[0] + 5 * v[1] + 4 * v[2]);
    assert(cnpj_weight(12, 3) == 3);
    assert(cnpj_weighted_sum(v, 12, 4) == cnpj_weighted_sum(v, 12, 3) + v[3] * cnpj_weight(12, 3));
    assert(cnpj_weighted_sum(v, 12, 4) == 6 * v[0] + 5 * v[1] + 4 * v[2] + 3 * v[3]);
    assert(cnpj_weight(12, 4) == 2);
    assert(cnpj_weighted_sum(v, 12, 5) == cnpj_weighted_sum(v, 12, 4) + v[4] * cnpj_weight(12, 4));
    assert(cnpj_weighted_sum(v, 12, 5) == 6 * v[0] + 5 * v[1] + 4 * v[2] + 3 * v[3] + 2 * v[4]);
    assert(cnpj_weight(12, 5) == 9);
    assert(cnpj_weighted_sum(v, 12, 6) == cnpj_weighted_sum(v, 12, 5) + v[5] * cnpj_weight(12, 5));
    assert(cnpj_weighted_sum(v, 12, 6) == 6 * v[0] + 5 * v[1] + 4 * v[2] + 3 * v[3] + 2 * v[4] + 9 * v[5]);
    assert(cnpj_weight(12, 6) == 8);
    assert(cnpj_weighted_sum(v, 12, 7) == cnpj_weighted_sum(v, 12, 6) + v[6] * cnpj_weight(12, 6));
    assert(cnpj_weighted_sum(v, 12, 7) == 6 * v[0] + 5 * v[1] + 4 * v[2] + 3 * v[3] + 2 * v[4] + 9 * v[5] + 8 * v[6]);
    assert(cnpj_weight(12, 7) == 7);
    assert(cnpj_weighted_sum(v, 12, 8) == cnpj_weighted_sum(v, 12, 7) + v[7] * cnpj_weight(12, 7));
    assert(cnpj_weighted_sum(v, 12, 8) == 6 * v[0] + 5 * v[1] + 4 * v[2] + 3 * v[3] + 2 * v[4] + 9 * v[5] + 8 * v[6] + 7 * v[7]);
    assert(cnpj_weight(12, 8) == 6);
    assert(cnpj_weighted_sum(v, 12, 9) == cnpj_weighted_sum(v, 12, 8) + v[8] * cnpj_weight(12, 8));
    assert(cnpj_weighted_sum(v, 12, 9) == 6 * v[0] + 5 * v[1] + 4 * v[2] + 3 * v[3] + 2 * v[4] + 9 * v[5] + 8 * v[6] + 7 * v[7] + 6 * v[8]);
    assert(cnpj_weight(12, 9) == 5);
    assert(cnpj_weighted_sum(v, 12, 10) == cnpj_weighted_sum(v, 12, 9) + v[9] * cnpj_weight(12, 9));
    assert(cnpj_weighted_sum(v, 12, 10) == 6 * v[0] + 5 * v[1] + 4 * v[2] + 3 * v[3] + 2 * v[4] + 9 * v[5] + 8 * v[6] + 7 * v[7] + 6 * v[8] + 5 * v[9]);
    assert(cnpj_weight(12, 10) == 4);
    assert(cnpj_weighted_sum(v, 12, 11) == cnpj_weighted_sum(v, 12, 10) + v[10] * cnpj_weight(12, 10));
    assert(cnpj_weighted_sum(v, 12, 11) == 6 * v[0] + 5 * v[1] + 4 * v[2] + 3 * v[3] + 2 * v[4] + 9 * v[5] + 8 * v[6] + 7 * v[7] + 6 * v[8] + 5 * v[9] + 4 * v[10]);
    assert(cnpj_weight(12, 11) == 3);
    assert(cnpj_weighted_sum(v, 12, 12) == cnpj_weighted_sum(v, 12, 11) + v[11] * cnpj_weight(12, 11));
    assert(cnpj_weighted_sum(v, 12, 12) == 6 * v[0] + 5 * v[1] + 4 * v[2] + 3 * v[3] + 2 * v[4] + 9 * v[5] + 8 * v[6] + 7 * v[7] + 6 * v[8] + 5 * v[9] + 4 * v[10] + 3 * v[11]);
    assert(cnpj_weight(12, 12) == 2);
    assert(cnpj_weighted_sum(v, 12, 13) == cnpj_weighted_sum(v, 12, 12) + v[12] * cnpj_weight(12, 12));
    assert(cnpj_weighted_sum(v, 12, 13) == 6 * v[0] + 5 * v[1] + 4 * v[2] + 3 * v[3] + 2 * v[4] + 9 * v[5] + 8 * v[6] + 7 * v[7] + 6 * v[8] + 5 * v[9] + 4 * v[10] + 3 * v[11] + 2 * v[12]);
}

/// A valid CNPJ, read again, is accepted unchanged.
pub proof fn lemma_valid_cnpj_reads_as_itself(d: Seq<char>)
    requires
        is_valid_cnpj(d),
    ensures
        cnpj_parse(d) == Ok::<Seq<char>, CnpjError>(d),
{
    text::lemma_only_digits_of_digits(d);
}

/// Reading a text as a CNPJ depends on its digits alone: dropping every other
/// character first gives the same outcome.
pub proof fn lemma_cnpj_reads_only_digits(s: Seq<char>)
    ensures
        cnpj_parse(s) == cnpj_parse(text::only_digits(s)),
{
    text::lemma_only_digits_are_digits(s);
    text::lemma_only_digits_of_digits(text::only_digits(s));
}

/// Whatever text is accepted, what it gives is a valid CNPJ.
pub proof fn lemma_cnpj_accepts_only_valid(s: Seq<char>)
    ensures
        cnpj_parse(s) matches Ok(d) ==> is_valid_cnpj(d) && d == text::only_digits(s),
{
    text::lemma_only_digits_are_digits(s);
}

/// The formatted form of a valid CNPJ reads back as the same CNPJ.
pub proof fn lemma_cnpj_formatted_reads_back(d: Seq<char>)
    requires
        is_valid_cnpj(d),
    ensures
        cnpj_parse(cnpj_formatted(d)) == Ok::<Seq<char>, CnpjError>(d),
{
    let p0 = d.subrange(0, 2);
    let p1 = d.subrange(2, 5);
    let p2 = d.subrange(5, 8);
    let p3 = d.subrange(8, 12);
    let p4 = d.subrange(12, 14);
    assert forall|i: int| 0 <= i < p0.len() implies #[trigger] text::is_digit_char(p0[i]) by {
        assert(text::is_digit_char(d[i]));
    }
    assert forall|i: int| 0 <= i < p1.len() implies #[trigger] text::is_digit_char(p1[i]) by {
        assert(text::is_digit_char(d[i + 2]));
    }
    assert forall|i: int| 0 <= i < p2.len() implies #[trigger] text::is_digit_char(p2[i]) by {
        assert(text::is_digit_char(d[i + 5]));
    }
    assert forall|i: int| 0 <= i < p3.len() implies #[trigger] text::is_digit_char(p3[i]) by {
        assert(text::is_digit_char(d[i + 8]));
    }
    assert forall|i: int| 0 <= i < p4.len() implies #[trigger] text::is_digit_char(p4[i]) by {
        assert(text::is_digit_char(d[i + 12]));
    }
    text::lemma_only_digits_of_digits(p0);
    text::lemma_only_digits_of_digits(p1);
    text::lemma_only_digits_of_digits(p2);
    text::lemma_only_digits_of_digits(p3);
    text::lemma_only_digits_of_digits(p4);
    text::lemma_only_digits_separator('.');
    text::lemma_only_digits_separator('/');
    text::lemma_only_digits_separator('-');
    let a1 = p0 + seq!['.'];
    let a2 = a1 + p1;
    let a3 = a2 + seq!['.'];
    let a4 = a3 + p2;
    let a5 = a4 + seq!['/'];
    let a6 = a5 + p3;
    let a7 = a6 + seq!['-'];
    let a8 = a7 + p4;
    text::lemma_only_digits_concat(p0, seq!['.']);
    text::lemma_only_digits_concat(a1, p1);
    text::lemma_only_digits_concat(a2, seq!['.']);
    text::lemma_only_digits_concat(a3, p2);
    text::lemma_only_digits_concat(a4, seq!['/']);
    text::lemma_only_digits_concat(a5, p3);
    text::lemma_only_digits_concat(a6, seq!['-']);
    text::lemma_only_digits_concat(a7, p4);
    assert(a8 == cnpj_formatted(d));
    assert(text::only_digits(a8) =~= d);
    text::lemma_only_digits_of_digits(d);
}

/// Whether the first fourteen digit values in `digits` carry correct check digits.
fn validate_checksum(digits: &Vec<u32>) -> (r: bool)
    requires
        digits@.len() >= 14,
        forall|i: int| 0 <= i < 14 ==> #[trigger] digits@[i] <= 9,
    ensures
        r == cnpj_checksum_ok(text::as_ints(digits@.subrange(0, 14))),
{
    let ghost v = text::as_ints(digits@.subrange(0, 14));
    let mut sum: u32 = 0;
    let mut i: usize = 0;
    while i < 12
        invariant
            0 <= i <= 12,
            digits@.len() >= 14,
            v == text::as_ints(digits@.subrange(0, 14)),
            forall|j: int| 0 <= j < 14 ==> #[trigger] digits@[j] <= 9,
            sum == cnpj_weighted_sum(v, 11, i as nat),
            sum <= 81 * i,
        decreases 12 - i,
    {
        let d = digits[i];
        let w: u32 = 2 + (11 - i as u32) % 8;
        assert(d * w <= 81) by (nonlinear_arith)
            requires
                d <= 9,
                w <= 9,
        ;
        sum = sum + d * w;
        i = i + 1;
    }
    let r1 = sum % 11;
    let c1 = if r1 < 2 { 0 } else { 11 - r1 };
    if c1 != digits[12] {
        return false;
    }
    let mut sum2: u32 = 0;
    let mut k: usize = 0;
    while k < 13
        invariant
            0 <= k <= 13,
            digits@.len() >= 14,
            v == text::as_ints(digits@.subrange(0, 14)),
            forall|j: int| 0 <= j < 14 ==> #[trigger] digits@[j] <= 9,
            sum2 == cnpj_weighted_sum(v, 12, k as nat),
            sum2 <= 81 * k,
        decreases 13 - k,
    {
        let d = digits[k];
        let w: u32 = 2 + (12 - k as u32) % 8;
        assert(d * w <= 81) by (nonlinear_arith)
            requires
                d <= 9,
                w <= 9,
        ;
        sum2 = sum2 + d * w;
        k = k + 1;
    }
    let r2 = sum2 % 11;
    let c2 = if r2 < 2 { 0 } else { 11 - r2 };
    c2 == digits[13]
}

} // verus!
