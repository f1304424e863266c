use crate::error::DispatchError;
use vstd::prelude::*;
use vstd::string::StringExecFns;

verus! {

/// A regulatory region tag, drawn from a closed set. Round-trips to and
/// from its textual form and its wire integer form; unknown values of
/// either form fail decoding.
#[derive(Clone, Copy, Debug, PartialEq, Eq, Structural)]
pub enum Region {
    Us915,
    Eu868,
    Eu433,
    Cn470,
    Cn779,
    Au915,
    As9231,
    As9231b,
    As9232,
    As9233,
    As9234,
    Kr920,
    In865,
    Cd9001a,
}

/// The textual form of a region tag.
pub open spec fn region_str(r: Region) -> Seq<char> {
    match r {
        Region::Us915 => "US915"@,
        Region::Eu868 => "EU868"@,
        Region::Eu433 => "EU433"@,
        Region::Cn470 => "CN470"@,
        Region::Cn779 => "CN779"@,
        Region::Au915 => "AU915"@,
        Region::As9231 => "AS923_1"@,
        Region::As9231b => "AS923_1B"@,
        Region::As9232 => "AS923_2"@,
        Region::As9233 => "AS923_3"@,
        Region::As9234 => "AS923_4"@,
        Region::Kr920 => "KR920"@,
        Region::In865 => "IN865"@,
        Region::Cd9001a => "CD900_1A"@,
    }
}

/// The region tag whose textual form is `s`, if any. The match is exact and
/// case-sensitive.
pub open spec fn region_from_str(s: Seq<char>) -> Option<Region> {
    if s == "US915"@ {
        Some(Region::Us915)
    } else if s == "EU868"@ {
        Some(Region::Eu868)
    } else if s == "EU433"@ {
        Some(Region::Eu433)
    } else if s == "CN470"@ {
        Some(Region::Cn470)
    } else if s == "CN779"@ {
        Some(Region::Cn779)
    } else if s == "AU915"@ {
        Some(Region::Au915)
    } else if s == "AS923_1"@ {
        Some(Region::As9231)
    } else if s == "AS923_1B"@ {
        Some(Region::As9231b)
    } else if s == "AS923_2"@ {
        Some(Region::As9232)
    } else if s == "AS923_3"@ {
        Some(Region::As9233)
    } else if s == "AS923_4"@ {
        Some(Region::As9234)
    } else if s == "KR920"@ {
        Some(Region::Kr920)
    } else if s == "IN865"@ {
        Some(Region::In865)
    } else if s == "CD900_1A"@ {
        Some(Region::Cd9001a)
    } else {
        None
    }
}

/// The wire integer form of a region tag.
pub open spec fn region_i32(r: Region) -> int {
    match r {
        Region::Us915 => 0,
        Region::Eu868 => 1,
        Region::Eu433 => 2,
        Region::Cn470 => 3,
        Region::Cn779 => 4,
        Region::Au915 => 5,
        Region::As9231 => 6,
        Region::Kr920 => 7,
        Region::In865 => 8,
        Region::As9232 => 9,
        Region::As9233 => 10,
        Region::As9234 => 11,
        Region::As9231b => 12,
        Region::Cd9001a => 13,
    }
}

/// The region tag carried by the wire integer `v`, if any.
pub open spec fn region_from_i32(v: int) -> Option<Region> {
    if v == 0 {
        Some(Region::Us915)
    } else if v == 1 {
        Some(Region::Eu868)
    } else if v == 2 {
        Some(Region::Eu433)
    } else if v == 3 {
        Some(Region::Cn470)
    } else if v == 4 {
        Some(Region::Cn779)
    } else if v == 5 {
        Some(Region::Au915)
    } else if v == 6 {
        Some(Region::As9231)
    } else if v == 7 {
        Some(Region::Kr920)
    } else if v == 8 {
        Some(Region::In865)
    } else if v == 9 {
        Some(Region::As9232)
    } else if v == 10 {
        Some(Region::As9233)
    } else if v == 11 {
        Some(Region::As9234)
    } else if v == 12 {
        Some(Region::As9231b)
    } else if v == 13 {
        Some(Region::Cd9001a)
    } else {
        None
    }
}

/// The character of a single decimal digit.
pub open spec fn digit_char(d: int) -> char
    recommends
        0 <= d < 10,
{
    if d == 0 {
        '0'
    } else if d == 1 {
        '1'
    } else if d == 2 {
        '2'
    } else if d == 3 {
        '3'
    } else if d == 4 {
        '4'
    } else if d == 5 {
        '5'
    } else if d == 6 {
        '6'
    } else if d == 7 {
        '7'
    } else if d == 8 {
        '8'
    } else {
        '9'
    }
}

/// The decimal rendering of a natural number, most significant digit first.
pub open spec fn decimal_str(n: nat) -> Seq<char>
    decreases n,
{
    if n < 10 {
        seq![digit_char(n as int)]
    } else {
        decimal_str(n / 10) + seq![digit_char((n % 10) as int)]
    }
}

/// The decimal rendering of an integer, with a leading minus sign when
/// negative.
pub open spec fn decimal_str_signed(v: int) -> Seq<char> {
    if v < 0 {
        seq!['-'] + decimal_str((-v) as nat)
    } else {
        decimal_str(v as nat)
    }
}

/// The one-character string of a decimal digit.
fn digit_str(d: u64) -> (s: &'static str)
    requires
        d < 10,
    ensures
        s@ == seq![digit_char(d as int)],
{
    proof {
        reveal_strlit("0");
        reveal_strlit("1");
        reveal_strlit("2");
        reveal_strlit("3");
        reveal_strlit("4");
        reveal_strlit("5");
        reveal_strlit("6");
        reveal_strlit("7");
        reveal_strlit("8");
        reveal_strlit("9");
    }
    let s: &'static str = if d == 0 {
        "0"
    } else if d == 1 {
        "1"
    } else if d == 2 {
        "2"
    } else if d == 3 {
        "3"
    } else if d == 4 {
        "4"
    } else if d == 5 {
        "5"
    } else if d == 6 {
        "6"
    } else if d == 7 {
        "7"
    } else if d == 8 {
        "8"
    } else {
        "9"
    };
    proof {
        assert(s@ =~= seq![digit_char(d as int)]);
    }
    s
}

/// Renders a natural number in decimal.
pub fn u64_to_string(n: u64) -> (s: String)
    ensures
        s@ == decimal_str(n as nat),
    decreases n,
{
    if n < 10 {
        digit_str(n).to_owned()
    } else {
        let mut s = u64_to_string(n / 10);
        s.append(digit_str(n % 10));
        s
    }
}

/// Renders an integer in decimal, with a leading minus sign when negative.
pub fn i32_to_string(v: i32) -> (s: String)
    ensures
        s@ == decimal_str_signed(v as int),
{
    if v < 0 {
        let n: u64 = (-(v as i64)) as u64;
        let mut s = "-".to_owned();
        proof {
            reveal_strlit("-");
            assert("-"@ =~= seq!['-']);
        }
        s.append(u64_to_string(n).as_str());
        s
    } else {
        u64_to_string(v as u64)
    }
}

impl Region {
    /// Parses the exact, case-sensitive textual form of a region tag;
    /// any other string fails with an "unsupported region" message.
    pub fn parse(s: &str) -> (r: Result<Region, DispatchError>)
        ensures
            match region_from_str(s@) {
                Some(reg) => r matches Ok(x) && x == reg,
                None => r matches Err(e) && e matches DispatchError::Custom(m) && m@
                    == "unsupported region: "@ + s@,
            },
    {
        let o = s.to_owned();
        if o == "US915".to_owned() {
            Ok(Region::Us915)
        } else if o == "EU868".to_owned() {
            Ok(Region::Eu868)
        } else if o == "EU433".to_owned() {
            Ok(Region::Eu433)
        } else if o == "CN470".to_owned() {
            Ok(Region::Cn470)
        } else if o == "CN779".to_owned() {
            Ok(Region::Cn779)
        } else if o == "AU915".to_owned() {
            Ok(Region::Au915)
        } else if o == "AS923_1".to_owned() {
            Ok(Region::As9231)
        } else if o == "AS923_1B".to_owned() {
            Ok(Region::As9231b)
        } else if o == "AS923_2".to_owned() {
            Ok(Region::As9232)
        } else if o == "AS923_3".to_owned() {
            Ok(Region::As9233)
        } else if o == "AS923_4".to_owned() {
            Ok(Region::As9234)
        } else if o == "KR920".to_owned() {
            Ok(Region::Kr920)
        } else if o == "IN865".to_owned() {
            Ok(Region::In865)
        } else if o == "CD900_1A".to_owned() {
            Ok(Region::Cd9001a)
        } else {
            Err(DispatchError::Custom("unsupported region: ".to_owned().concat(s)))
        }
    }

    /// Renders the textual form of this region tag, the inverse of
    /// [`Region::parse`].
    pub fn render(&self) -> (s: String)
        ensures
            s@ == region_str(*self),
    {
        match self {
            Region::Us915 => "US915".to_owned(),
            Region::Eu868 => "EU868".to_owned(),
            Region::Eu433 => "EU433".to_owned(),
            Region::Cn470 => "CN470".to_owned(),
            Region::Cn779 => "CN779".to_owned(),
            Region::Au915 => "AU915".to_owned(),
            Region::As9231 => "AS923_1".to_owned(),
            Region::As9231b => "AS923_1B".to_owned(),
            Region::As9232 => "AS923_2".to_owned(),
            Region::As9233 => "AS923_3".to_owned(),
            Region::As9234 => "AS923_4".to_owned(),
            Region::Kr920 => "KR920".to_owned(),
            Region::In865 => "IN865".to_owned(),
            Region::Cd9001a => "CD900_1A".to_owned(),
        }
    }

    /// Decodes the wire integer form of a region tag; unknown integers fail
    /// with an "unsupported region" message.
    pub fn from_i32(v: i32) -> (r: Result<Region, DispatchError>)
        ensures
            match region_from_i32(v as int) {
                Some(reg) => r matches Ok(x) && x == reg,
                None => r matches Err(e) && e matches DispatchError::Custom(m) && m@
                    == "unsupported region "@ + decimal_str_signed(v as int),
            },
    {
        if v == 0 {
            Ok(Region::Us915)
        } else if v == 1 {
            Ok(Region::Eu868)
        } else if v == 2 {
            Ok(Region::Eu433)
        } else if v == 3 {
            Ok(Region::Cn470)
        } else if v == 4 {
            Ok(Region::Cn779)
        } else if v == 5 {
            Ok(Region::Au915)
        } else if v == 6 {
            Ok(Region::As9231)
        } else if v == 7 {
            Ok(Region::Kr920)
        } else if v == 8 {
            Ok(Region::In865)
        } else if v == 9 {
            Ok(Region::As9232)
        } else if v == 10 {
            Ok(Region::As9233)
        } else if v == 11 {
            Ok(Region::As9234)
        } else if v == 12 {
            Ok(Region::As9231b)
        } else if v == 13 {
            Ok(Region::Cd9001a)
        } else {
            Err(DispatchError::Custom("unsupported region ".to_owned().concat(
                i32_to_string(v).as_str(),
            )))
        }
    }

    /// The wire integer form of this region tag, the inverse of
    /// [`Region::from_i32`].
    pub fn to_i32(&self) -> (v: i32)
        ensures
            v as int == region_i32(*self),
    {
        match self {
            Region::Us915 => 0,
            Region::Eu868 => 1,
            Region::Eu433 => 2,
            Region::Cn470 => 3,
            Region::Cn779 => 4,
            Region::Au915 => 5,
            Region::As9231 => 6,
            Region::Kr920 => 7,
            Region::In865 => 8,
            Region::As9232 => 9,
            Region::As9233 => 10,
            Region::As9234 => 11,
            Region::As9231b => 12,
            Region::Cd9001a => 13,
        }
    }
}

/// Parsing is the inverse of rendering: every tag in the closed set comes
/// back from its own textual form.
pub proof fn lemma_region_string_round_trip(r: Region)
    ensures
        region_from_str(region_str(r)) == Some(r),
{
    reveal_strlit("US915");
    reveal_strlit("EU868");
    reveal_strlit("EU433");
    reveal_strlit("CN470");
    reveal_strlit("CN779");
    reveal_strlit("AU915");
    reveal_strlit("AS923_1");
    reveal_strlit("AS923_1B");
    reveal_strlit("AS923_2");
    reveal_strlit("AS923_3");
    reveal_strlit("AS923_4");
    reveal_strlit("KR920");
    reveal_strlit("IN865");
    reveal_strlit("CD900_1A");
    assert("US915"@ =~= seq!['U', 'S', '9', '1', '5']);
    assert("EU868"@ =~= seq!['E', 'U', '8', '6', '8']);
    assert("EU433"@ =~= seq!['E', 'U', '4', '3', '3']);
    assert("CN470"@ =~= seq!['C', 'N', '4', '7', '0']);
    assert("CN779"@ =~= seq!['C', 'N', '7', '7', '9']);
    assert("AU915"@ =~= seq!['A', 'U', '9', '1', '5']);
    assert("AS923_1"@ =~= seq!['A', 'S', '9', '2', '3', '_', '1']);
    assert("AS923_1B"@ =~= seq!['A', 'S', '9', '2', '3', '_', '1', 'B']);
    assert("AS923_2"@ =~= seq!['A', 'S', '9', '2', '3', '_', '2']);
    assert("AS923_3"@ =~= seq!['A', 'S', '9', '2', '3', '_', '3']);
    assert("AS923_4"@ =~= seq!['A', 'S', '9', '2', '3', '_', '4']);
    assert("KR920"@ =~= seq!['K', 'R', '9', '2', '0']);
    assert("IN865"@ =~= seq!['I', 'N', '8', '6', '5']);
    assert("CD900_1A"@ =~= seq!['C', 'D', '9', '0', '0', '_', '1', 'A']);
    match r {
        Region::Us915 => assert(region_from_str("US915"@) == Some(Region::Us915)),
        Region::Eu868 => assert(region_from_str("EU868"@) == Some(Region::Eu868)),
        Region::Eu433 => assert(region_from_str("EU433"@) == Some(Region::Eu433)),
        Region::Cn470 => assert(region_from_str("CN470"@) == Some(Region::Cn470)),
        Region::Cn779 => assert(region_from_str("CN779"@) == Some(Region::Cn779)),
        Region::Au915 => assert(region_from_str("AU915"@) == Some(Region::Au915)),
        Region::As9231 => assert(region_from_str("AS923_1"@) == Some(Region::As9231)),
        Region::As9231b => assert(region_from_str("AS923_1B"@) == Some(Region::As9231b)),
        Region::As9232 => assert(region_from_str("AS923_2"@) == Some(Region::As9232)),
        Region::As9233 => assert(region_from_str("AS923_3"@) == Some(Region::As9233)),
        Region::As9234 => assert(region_from_str("AS923_4"@) == Some(Region::As9234)),
        Region::Kr920 => assert(region_from_str("KR920"@) == Some(Region::Kr920)),
        Region::In865 => assert(region_from_str("IN865"@) == Some(Region::In865)),
        Region::Cd9001a => assert(region_from_str("CD900_1A"@) == Some(Region::Cd9001a)),
    }
}

/// Decoding is the inverse of encoding: every tag comes back from its own
/// wire integer form.
pub proof fn lemma_region_i32_round_trip(r: Region)
    ensures
        region_from_i32(region_i32(r)) == Some(r),
{
}

/// One spreading-factor entry of a channel, in wire form: the integer tag
/// of the spreading factor, guarded by the largest packet size it covers.
#[derive(Clone, Copy, Debug, PartialEq, Eq, Structural)]
pub struct TaggedSpreading {
    pub region_spreading: i32,
    pub max_packet_size: u32,
}

/// The per-channel parameters of one channel.
#[derive(Clone, Debug)]
pub struct RegionParam {
    pub max_eirp: u32,
    pub bandwidth: u32,
    pub spreading: Vec<TaggedSpreading>,
}

/// The per-channel parameter set of a region. The bandwidth and the
/// spreading table are uniform across channels, so derived operations read
/// them from the first channel.
#[derive(Clone, Debug)]
pub struct RegionParams {
    pub region_params: Vec<RegionParam>,
}

/// The SF7..SF12 label of a wire spreading-factor tag; tags outside that
/// band (the invalid tag among them) have no label.
pub open spec fn spec_sf_str(rs: int) -> Option<Seq<char>> {
    if rs == 1 {
        Some("SF7"@)
    } else if rs == 2 {
        Some("SF8"@)
    } else if rs == 3 {
        Some("SF9"@)
    } else if rs == 4 {
        Some("SF10"@)
    } else if rs == 5 {
        Some("SF11"@)
    } else if rs == 6 {
        Some("SF12"@)
    } else {
        None
    }
}

/// The first tagged entry that covers a packet of `size` bytes.
pub open spec fn spec_first_fit(ts: Seq<TaggedSpreading>, size: u32) -> Option<TaggedSpreading>
    decreases ts.len(),
{
    if ts.len() == 0 {
        None
    } else if ts[0].max_packet_size >= size {
        Some(ts[0])
    } else {
        spec_first_fit(ts.skip(1), size)
    }
}

/// The bandwidth of any channel; the bandwidth is uniform, so the first
/// channel answers for all.
pub open spec fn spec_bandwidth(p: Seq<RegionParam>) -> Option<u32> {
    if p.len() > 0 {
        Some(p[0].bandwidth)
    } else {
        None
    }
}

/// The spreading label for a packet of `size` bytes: the first covering
/// entry of the first channel, mapped to its SF7..SF12 label.
pub open spec fn spec_spreading(p: Seq<RegionParam>, size: u32) -> Option<Seq<char>> {
    if p.len() == 0 {
        None
    } else {
        match spec_first_fit(p[0].spreading@, size) {
            None => None,
            Some(t) => spec_sf_str(t.region_spreading as int),
        }
    }
}

/// The data-rate label `<SF>BW<bandwidth kHz>` for a packet of `size`
/// bytes, defined when both the spreading label and the bandwidth are.
pub open spec fn spec_datarate(p: Seq<RegionParam>, size: u32) -> Option<Seq<char>> {
    match (spec_spreading(p, size), spec_bandwidth(p)) {
        (Some(sf), Some(bw)) => Some(sf + "BW"@ + decimal_str((bw / 1000) as nat)),
        _ => None,
    }
}

/// The SF7..SF12 label of a wire spreading-factor tag.
fn sf_str(rs: i32) -> (r: Option<&'static str>)
    ensures
        match spec_sf_str(rs as int) {
            Some(sq) => r matches Some(s) && s@ == sq,
            None => r is None,
        },
{
    if rs == 1 {
        Some("SF7")
    } else if rs == 2 {
        Some("SF8")
    } else if rs == 3 {
        Some("SF9")
    } else if rs == 4 {
        Some("SF10")
    } else if rs == 5 {
        Some("SF11")
    } else if rs == 6 {
        Some("SF12")
    } else {
        None
    }
}

impl RegionParams {
    /// The maximum EIRP across all channels; `None` only when there are no
    /// channels.
    pub fn max_eirp(&self) -> (r: Option<u32>)
        ensures
            (r is Some) <==> self.region_params@.len() > 0,
            r matches Some(m) ==> (exists|i: int|
                0 <= i < self.region_params@.len() && self.region_params@[i].max_eirp == m)
                && (forall|i: int|
                0 <= i < self.region_params@.len() ==> self.region_params@[i].max_eirp <= m),
    {
        if self.region_params.len() == 0 {
            return None;
        }
        let mut m = self.region_params[0].max_eirp;
        let mut i: usize = 1;
        while i < self.region_params.len()
            invariant
                1 <= i <= self.region_params@.len(),
                exists|j: int| 0 <= j < i && self.region_params@[j].max_eirp == m,
                forall|j: int| 0 <= j < i ==> self.region_params@[j].max_eirp <= m,
            decreases self.region_params@.len() - i,
        {
            if self.region_params[i].max_eirp > m {
                m = self.region_params[i].max_eirp;
            }
            i += 1;
        }
        Some(m)
    }

    /// The uniform bandwidth, read from the first channel; `None` only when
    /// there are no channels.
    pub fn bandwidth(&self) -> (r: Option<u32>)
        ensures
            r == spec_bandwidth(self.region_params@),
    {
        if self.region_params.len() == 0 {
            None
        } else {
            Some(self.region_params[0].bandwidth)
        }
    }

    /// The spreading label for a packet of `packet_size` bytes: the first
    /// tagged entry of the first channel whose guard covers the packet,
    /// mapped to SF7..SF12; an invalid tag yields no spreading.
    pub fn spreading(&self, packet_size: u32) -> (r: Option<&'static str>)
        ensures
            match spec_spreading(self.region_params@, packet_size) {
                Some(sq) => r matches Some(s) && s@ == sq,
                None => r is None,
            },
    {
        if self.region_params.len() == 0 {
            return None;
        }
        let first = &self.region_params[0];
        let ghost full: Seq<TaggedSpreading> = first.spreading@;
        proof {
            assert(full.skip(0) =~= full);
        }
        let mut i: usize = 0;
        while i < first.spreading.len()
            invariant
                i <= full.len(),
                self.region_params@.len() > 0,
                full == first.spreading@,
                full == self.region_params@[0].spreading@,
                spec_first_fit(full, packet_size) == spec_first_fit(
                    full.skip(i as int),
                    packet_size,
                ),
            decreases full.len() - i,
        {
            if first.spreading[i].max_packet_size >= packet_size {
                proof {
                    assert(full.skip(i as int)[0] == full[i as int]);
                    assert(spec_first_fit(full, packet_size) == Some(full[i as int]));
                    assert(spec_spreading(self.region_params@, packet_size) == spec_sf_str(
                        full[i as int].region_spreading as int,
                    ));
                }
                return sf_str(first.spreading[i].region_spreading);
            }
            proof {
                assert(full.skip(i as int).skip(1) =~= full.skip(i as int + 1));
            }
            i += 1;
        }
        proof {
            assert(full.skip(i as int) =~= Seq::<TaggedSpreading>::empty());
        }
        None
    }

    /// The data-rate label `<SF>BW<bandwidth kHz>` for a packet of
    /// `packet_size` bytes, defined when both the spreading label and the
    /// bandwidth are.
    pub fn datarate(&self, packet_size: u32) -> (r: Option<String>)
        ensures
            match spec_datarate(self.region_params@, packet_size) {
                Some(sq) => r matches Some(s) && s@ == sq,
                None => r is None,
            },
    {
        match self.spreading(packet_size) {
            None => None,
            Some(sf) => match self.bandwidth() {
                None => None,
                Some(bw) => {
                    let mut s = sf.to_owned();
                    s.append("BW");
                    s.append(u64_to_string((bw / 1000) as u64).as_str());
                    Some(s)
                },
            },
        }
    }
}

} // verus!
