use vstd::prelude::*;
use vstd::string::StrSliceExecFns;
use vstd::string::StringExecFns;

use super::models::SpectatorEndpoint;

verus! {

/// The official spectator regions this recorder knows how to reach.
#[derive(Debug, Clone, Copy, PartialEq, Eq, Structural)]
pub enum Region {
    KR,
    EUW1,
    NA1,
}

/// The lowercase region code used inside the spectator host name.
pub open spec fn region_code(r: Region) -> Seq<char> {
    match r {
        Region::KR => "kr"@,
        Region::EUW1 => "euw1"@,
        Region::NA1 => "na1"@,
    }
}

/// The uppercase platform identifier used in request paths.
pub open spec fn region_platform_id(r: Region) -> Seq<char> {
    match r {
        Region::KR => "KR"@,
        Region::EUW1 => "EUW1"@,
        Region::NA1 => "NA1"@,
    }
}

/// The base address of the official spectator server of a region.
pub open spec fn spec_base_url(r: Region) -> Seq<char> {
    "http://spectator-consumer."@ + region_code(r) + ".lol.pvp.net:80"@
}

/// Which region a lowercase code denotes, if any.
pub open spec fn region_of(s: Seq<char>) -> Option<Region> {
    if s == "kr"@ {
        Some(Region::KR)
    } else if s == "euw1"@ {
        Some(Region::EUW1)
    } else if s == "na1"@ {
        Some(Region::NA1)
    } else {
        None
    }
}

/// Character-wise string equality.
fn str_eq(a: &str, b: &str) -> (r: bool)
    ensures
        r == (a@ == b@),
{
    let alen = a.unicode_len();
    let blen = b.unicode_len();
    if alen != blen {
        return false;
    }
    let mut i: usize = 0;
    while i < alen
        invariant
            i <= alen,
            alen == a@.len(),
            alen == b@.len(),
            forall|j: int| 0 <= j < i ==> a@[j] == b@[j],
        decreases alen - i,
    {
        if a.get_char(i) != b.get_char(i) {
            return false;
        }
        i = i + 1;
    }
    proof {
        assert(a@ =~= b@);
    }
    true
}

impl Region {
    pub fn to_endpoint(&self) -> (e: SpectatorEndpoint)
        ensures
            e.base_url@ == spec_base_url(*self),
            e.platform_id@ == region_platform_id(*self),
    {
        SpectatorEndpoint { base_url: base_url(self), platform_id: self.platform_id() }
    }

    pub fn platform_id(&self) -> (r: String)
        ensures
            r@ == region_platform_id(*self),
    {
        match self {
            Region::KR => "KR".to_owned(),
            Region::EUW1 => "EUW1".to_owned(),
            Region::NA1 => "NA1".to_owned(),
        }
    }

    /// The lowercase code of the region, as it is written on the command line.
    pub fn code(&self) -> (r: String)
        ensures
            r@ == region_code(*self),
    {
        match self {
            Region::KR => "kr".to_owned(),
            Region::EUW1 => "euw1".to_owned(),
            Region::NA1 => "na1".to_owned(),
        }
    }

    /// Reads a region from its lowercase code; any other text is rejected
    /// with a message naming it.
    pub fn parse(s: &str) -> (r: Result<Region, String>)
        ensures
            match r {
                Ok(reg) => region_of(s@) == Some(reg),
                Err(m) => {
                    &&& region_of(s@) is None
                    &&& m@ == "'"@ + s@ + "' is not a valid region"@
                },
            },
    {
        if str_eq(s, "kr") {
            Ok(Region::KR)
        } else if str_eq(s, "euw1") {
            Ok(Region::EUW1)
        } else if str_eq(s, "na1") {
            Ok(Region::NA1)
        } else {
            let mut m = String::from_str("'");
            m.append(s);
            m.append("' is not a valid region");
            Err(m)
        }
    }
}

impl core::str::FromStr for Region {
    type Err = String;

    fn from_str(s: &str) -> Result<Region, String> {
        Region::parse(s)
    }
}

/// The decimal digit characters.
pub open spec fn spec_digit_char(d: nat) -> char {
    if d == 0 {
        '0'
    } else if d == 1 {
        '1'
    } else if d == 2 {
        '2'
    } else if d == 3 {
        '3'
    } else if d == 4 {
        '4'
    } else if d == 5 {
        '5'
    } else if d == 6 {
        '6'
    } else if d == 7 {
        '7'
    } else if d == 8 {
        '8'
    } else {
        '9'
    }
}

/// The decimal writing of a number, most significant digit first.
pub open spec fn spec_dec_string(n: nat) -> Seq<char>
    decreases n,
{
    if n < 10 {
        seq![spec_digit_char(n)]
    } else {
        spec_dec_string(n / 10) + seq![spec_digit_char(n % 10)]
    }
}

fn digit_str(d: u32) -> (r: &'static str)
    requires
        d < 10,
    ensures
        r@ == seq![spec_digit_char(d as nat)],
{
    if d == 0 {
        proof { reveal_strlit("0"); }
        proof { assert("0"@ =~= seq![spec_digit_char(0)]); }
        "0"
    } else if d == 1 {
        proof { reveal_strlit("1"); }
        proof { assert("1"@ =~= seq![spec_digit_char(1)]); }
        "1"
    } else if d == 2 {
        proof { reveal_strlit("2"); }
        proof { assert("2"@ =~= seq![spec_digit_char(2)]); }
        "2"
    } else if d == 3 {
        proof { reveal_strlit("3"); }
        proof { assert("3"@ =~= seq![spec_digit_char(3)]); }
        "3"
    } else if d == 4 {
        proof { reveal_strlit("4"); }
        proof { assert("4"@ =~= seq![spec_digit_char(4)]); }
        "4"
    } else if d == 5 {
        proof { reveal_strlit("5"); }
        proof { assert("5"@ =~= seq![spec_digit_char(5)]); }
        "5"
    } else if d == 6 {
        proof { reveal_strlit("6"); }
        proof { assert("6"@ =~= seq![spec_digit_char(6)]); }
        "6"
    } else if d == 7 {
        proof { reveal_strlit("7"); }
        proof { assert("7"@ =~= seq![spec_digit_char(7)]); }
        "7"
    } else if d == 8 {
        proof { reveal_strlit("8"); }
        proof { assert("8"@ =~= seq![spec_digit_char(8)]); }
        "8"
    } else {
        proof { reveal_strlit("9"); }
        proof { assert("9"@ =~= seq![spec_digit_char(9)]); }
        "9"
    }
}

/// The decimal writing of a signed number: a minus sign for a negative
/// one, then its magnitude.
pub open spec fn spec_signed_dec_string(n: int) -> Seq<char> {
    if n < 0 {
        seq!['-'] + spec_dec_string((-n) as nat)
    } else {
        spec_dec_string(n as nat)
    }
}

/// The words booleans are written as.
pub open spec fn spec_bool_string(b: bool) -> Seq<char> {
    if b {
        "true"@
    } else {
        "false"@
    }
}

/// Writes a number in decimal, for request paths and reports.
pub fn u32_to_string(n: u32) -> (r: String)
    ensures
        r@ == spec_dec_string(n as nat),
    decreases n,
{
    if n < 10 {
        digit_str(n).to_owned()
    } else {
        let prefix = u32_to_string(n / 10);
        let r = prefix.concat(digit_str(n % 10));
        proof {
            assert(r@ =~= spec_dec_string(n as nat));
        }
        r
    }
}

/// Writes a wide number in decimal.
pub fn u64_to_string(n: u64) -> (r: String)
    ensures
        r@ == spec_dec_string(n as nat),
    decreases n,
{
    if n < 10 {
        digit_str(n as u32).to_owned()
    } else {
        let prefix = u64_to_string(n / 10);
        let r = prefix.concat(digit_str((n % 10) as u32));
        proof {
            assert(r@ =~= spec_dec_string(n as nat));
        }
        r
    }
}

/// Writes a signed number in decimal.
pub fn i32_to_string(n: i32) -> (r: String)
    ensures
        r@ == spec_signed_dec_string(n as int),
{
    if n < 0 {
        let magnitude: u64 = (-(n as i64)) as u64;
        let digits = u64_to_string(magnitude);
        let mut r = String::from_str("-");
        r.append(digits.as_str());
        proof {
            reveal_strlit("-");
            assert("-"@ =~= seq!['-']);
            assert(r@ =~= spec_signed_dec_string(n as int));
        }
        r
    } else {
        let r = u32_to_string(n as u32);
        r
    }
}

/// Writes a boolean as a word.
pub fn bool_to_string(b: bool) -> (r: String)
    ensures
        r@ == spec_bool_string(b),
{
    if b {
        "true".to_owned()
    } else {
        "false".to_owned()
    }
}

pub fn base_url(region: &Region) -> (r: String)
    ensures
        r@ == spec_base_url(*region),
{
    let code = region.code();
    let mut url = String::from_str("http://spectator-consumer.");
    url.append(code.as_str());
    url.append(".lol.pvp.net:80");
    proof {
        assert(url@ =~= spec_base_url(*region));
    }
    url
}

} // verus!
