//! What was seen on the network.
//!
//! A service that was seen is a hint: it is held for a while, bounded in number
//! and size, and becomes a device only when an operator confirms it. What a
//! responder says of itself is cut to size, and never decides whose it is.

use vstd::prelude::*;

use crate::command::OperationId;
use crate::devices::broadcaster::AddressFamily;
use crate::model::clone_opt;
use crate::table::Table;
use crate::text::{
    cat2, cat3, chars_of, decimal_text, split_once, str_eq, str_less, strip_suffix, trim_end,
    CharClass,
};
use crate::time::Duration;

verus! {

/// The service type of Cast receivers.
pub const CAST_SERVICE_TYPE: &'static str = "_googlecast._tcp.local.";

/// The service type of NDI sources.
pub const NDI_SERVICE_TYPE: &'static str = "_ndi._tcp.local.";

/// How long a scan looks, in seconds.
pub const DEFAULT_SCAN_BUDGET_SECS: u64 = 5;

/// How long a service is held after it was seen, in seconds.
pub const DEFAULT_ENTRY_TTL_SECS: u64 = 120;

/// How many services are held.
pub const DEFAULT_INVENTORY_CAPACITY: usize = 256;

/// How many services one scan collects.
pub const MAX_SCAN_EVENTS: usize = 1_024;

/// How many bytes of a name are kept.
pub const MAX_FIELD_LEN: usize = 256;

/// How many bytes of a record's value are kept.
pub const MAX_TXT_VALUE_LEN: usize = 512;

/// How many records of a service are kept.
pub const MAX_TXT_RECORDS: usize = 64;

/// How many endpoints of a service are kept.
pub const MAX_ENDPOINTS: usize = 16;

// ---- Kinds -------------------------------------------------------------------

/// What a service is taken for.
#[derive(Debug, Clone, Copy, PartialEq, Eq, Hash, Structural)]
pub enum DiscoveryDriverKind {
    /// A Cast receiver.
    Cast,
    /// An NDI source.
    NdiSource,
    /// The management of an appliance, of the type that an operator configured.
    ZowietekControl,
    /// Something else.
    Unknown,
}

/// The wire name of a kind.
pub open spec fn kind_name(k: DiscoveryDriverKind) -> Seq<char> {
    match k {
        DiscoveryDriverKind::Cast => "cast"@,
        DiscoveryDriverKind::NdiSource => "ndi-source"@,
        DiscoveryDriverKind::ZowietekControl => "zowietek-control"@,
        DiscoveryDriverKind::Unknown => "unknown"@,
    }
}

impl DiscoveryDriverKind {
    /// The wire name.
    pub fn as_str(self) -> (r: &'static str)
        ensures
            r@ == kind_name(self),
    {
        match self {
            DiscoveryDriverKind::Cast => "cast",
            DiscoveryDriverKind::NdiSource => "ndi-source",
            DiscoveryDriverKind::ZowietekControl => "zowietek-control",
            DiscoveryDriverKind::Unknown => "unknown",
        }
    }
}

/// A service type without the local domain and without dots at its end.
pub open spec fn plain_type(ty: Seq<char>) -> Seq<char> {
    let trimmed = crate::text::trim_end_of(ty, CharClass::Only('.'));
    let bare = if ".local"@.is_suffix_of(trimmed) {
        trimmed.take(trimmed.len() - ".local"@.len())
    } else {
        trimmed
    };
    crate::text::trim_end_of(bare, CharClass::Only('.'))
}

/// Two service types are the same, whatever is said of the local domain.
pub open spec fn same_type(a: Seq<char>, b: Seq<char>) -> bool {
    plain_type(a) == plain_type(b)
}

/// What a service of a type is taken for.
pub open spec fn kind_of(ty: Seq<char>, configured: Option<Seq<char>>) -> DiscoveryDriverKind {
    if same_type(ty, CAST_SERVICE_TYPE@) {
        DiscoveryDriverKind::Cast
    } else if same_type(ty, NDI_SERVICE_TYPE@) {
        DiscoveryDriverKind::NdiSource
    } else {
        match configured {
            Some(z) => if same_type(ty, z) {
                DiscoveryDriverKind::ZowietekControl
            } else {
                DiscoveryDriverKind::Unknown
            },
            None => DiscoveryDriverKind::Unknown,
        }
    }
}

/// The text behind an optional reference.
pub open spec fn ref_text(t: Option<&str>) -> Option<Seq<char>> {
    match t {
        Some(s) => Some(s@),
        None => None,
    }
}

fn normalize_service_type(ty: &str) -> (r: &str)
    ensures
        r@ == plain_type(ty@),
{
    let trimmed = trim_end(ty, CharClass::Only('.'));
    let bare = match strip_suffix(trimmed, ".local") {
        Some(t) => t,
        None => trimmed,
    };
    trim_end(bare, CharClass::Only('.'))
}

fn service_types_match(a: &str, b: &str) -> (r: bool)
    ensures
        r == same_type(a@, b@),
{
    str_eq(normalize_service_type(a), normalize_service_type(b))
}

/// What a service of a type is taken for. The management of appliances has no
/// known type: it is the one that an operator configured, if any.
pub fn infer_driver_kind(service_type: &str, configured_zowietek: Option<&str>) -> (r:
    DiscoveryDriverKind)
    ensures
        r == kind_of(service_type@, ref_text(configured_zowietek)),
{
    if service_types_match(service_type, CAST_SERVICE_TYPE) {
        return DiscoveryDriverKind::Cast;
    }
    if service_types_match(service_type, NDI_SERVICE_TYPE) {
        return DiscoveryDriverKind::NdiSource;
    }
    if let Some(configured) = configured_zowietek {
        if service_types_match(service_type, configured) {
            return DiscoveryDriverKind::ZowietekControl;
        }
    }
    DiscoveryDriverKind::Unknown
}

/// A type is among some types.
pub open spec fn has_type(types: Seq<Seq<char>>, ty: Seq<char>) -> bool {
    exists|i: int| 0 <= i < types.len() && same_type(#[trigger] types[i], ty)
}

/// The types with one more, unless they have it.
pub open spec fn with_type(types: Seq<Seq<char>>, ty: Seq<char>) -> Seq<Seq<char>> {
    if has_type(types, ty) {
        types
    } else {
        types.push(ty)
    }
}

/// The types that are always looked for.
pub open spec fn usual_types(configured: Option<Seq<char>>) -> Seq<Seq<char>> {
    let two = seq![CAST_SERVICE_TYPE@, NDI_SERVICE_TYPE@];
    match configured {
        Some(z) => with_type(two, z),
        None => two,
    }
}

/// The types with some more, unless they have them.
pub open spec fn with_types(types: Seq<Seq<char>>, extra: Seq<Seq<char>>) -> Seq<Seq<char>>
    decreases extra.len(),
{
    if extra.len() == 0 {
        types
    } else {
        with_type(with_types(types, extra.drop_last()), extra.last())
    }
}

fn types_have(types: &Vec<String>, ty: &str) -> (r: bool)
    ensures
        r == has_type(crate::text::texts(types@), ty@),
{
    let ghost all = crate::text::texts(types@);
    let mut i: usize = 0;
    while i < types.len()
        invariant
            i <= types.len(),
            all == crate::text::texts(types@),
            forall|j: int| 0 <= j < i ==> !same_type(#[trigger] all[j], ty@),
        decreases types.len() - i,
    {
        assert(all[i as int] == types@[i as int]@);
        if service_types_match(types[i].as_str(), ty) {
            return true;
        }
        i += 1;
    }
    false
}

fn add_type(types: &mut Vec<String>, ty: &str)
    ensures
        crate::text::texts(final(types)@) == with_type(crate::text::texts(old(types)@), ty@),
{
    if !types_have(types, ty) {
        types.push(ty.to_owned());
        assert(crate::text::texts(types@) =~= crate::text::texts(old(types)@).push(ty@));
    }
}

/// The types that are always looked for: Cast receivers, NDI sources, and the
/// type that an operator configured for appliances.
pub fn default_service_types(configured_zowietek: Option<&str>) -> (r: Vec<String>)
    ensures
        crate::text::texts(r@) == usual_types(ref_text(configured_zowietek)),
{
    let mut types: Vec<String> = Vec::new();
    types.push(CAST_SERVICE_TYPE.to_owned());
    types.push(NDI_SERVICE_TYPE.to_owned());
    assert(crate::text::texts(types@) =~= seq![CAST_SERVICE_TYPE@, NDI_SERVICE_TYPE@]);
    if let Some(z) = configured_zowietek {
        add_type(&mut types, z);
    }
    types
}

/// The types that a scan looks for: the usual ones and the configured ones,
/// none of them twice.
pub fn scan_service_types(configured_zowietek: Option<&str>, extra: &Vec<String>) -> (r: Vec<
    String,
>)
    ensures
        crate::text::texts(r@) == with_types(
            usual_types(ref_text(configured_zowietek)),
            crate::text::texts(extra@),
        ),
{
    let mut types = default_service_types(configured_zowietek);
    let ghost usual = crate::text::texts(types@);
    let ghost all = crate::text::texts(extra@);
    let mut i: usize = 0;
    assert(all.take(0) =~= Seq::<Seq<char>>::empty());
    while i < extra.len()
        invariant
            i <= extra.len(),
            all == crate::text::texts(extra@),
            crate::text::texts(types@) == with_types(usual, all.take(i as int)),
        decreases extra.len() - i,
    {
        proof {
            assert(all.take(i + 1).drop_last() =~= all.take(i as int));
            assert(all.take(i + 1).last() == extra@[i as int]@);
        }
        add_type(&mut types, extra[i].as_str());
        i += 1;
    }
    assert(all.take(i as int) =~= all);
    types
}

// ---- Endpoints ---------------------------------------------------------------

/// An address of a service, in its usual notation.
#[derive(Debug, PartialEq, Eq)]
pub struct Address {
    /// The address.
    pub text: String,
    /// Whether it is an IPv6 address.
    pub v6: bool,
}

impl Clone for Address {
    fn clone(&self) -> (r: Self)
        ensures
            r == *self,
    {
        Address { text: self.text.clone(), v6: self.v6 }
    }
}

/// Where a service can be managed.
#[derive(Debug, PartialEq, Eq)]
pub struct DiscoveredEndpoint {
    /// The host and the port, an IPv6 literal in brackets.
    pub address: String,
    /// The family of the host.
    pub family: AddressFamily,
}

/// Where a service can be managed, the text as a sequence.
pub struct EndpointView {
    /// The host and the port.
    pub address: Seq<char>,
    /// The family of the host.
    pub family: AddressFamily,
}

/// The endpoint of an address.
pub open spec fn endpoint_at(a: Address, port: u16) -> EndpointView {
    if a.v6 {
        EndpointView {
            address: "["@ + a.text@ + "]:"@ + crate::text::decimal(port as nat),
            family: AddressFamily::Ipv6,
        }
    } else {
        EndpointView {
            address: a.text@ + ":"@ + crate::text::decimal(port as nat),
            family: AddressFamily::Ipv4Legacy,
        }
    }
}

impl DiscoveredEndpoint {
    /// The endpoint, its text as a sequence.
    pub open spec fn view(self) -> EndpointView {
        EndpointView { address: self.address@, family: self.family }
    }

    /// The endpoint of an address.
    pub fn from_addr(addr: &Address, port: u16) -> (r: Self)
        ensures
            r@ == endpoint_at(*addr, port),
    {
        let digits = decimal_text(port as u64);
        if addr.v6 {
            let head = cat3("[", addr.text.as_str(), "]:");
            DiscoveredEndpoint {
                address: cat2(head.as_str(), digits.as_str()),
                family: AddressFamily::Ipv6,
            }
        } else {
            DiscoveredEndpoint {
                address: cat3(addr.text.as_str(), ":", digits.as_str()),
                family: AddressFamily::Ipv4Legacy,
            }
        }
    }
}

impl Clone for DiscoveredEndpoint {
    fn clone(&self) -> (r: Self)
        ensures
            r == *self,
    {
        DiscoveredEndpoint { address: self.address.clone(), family: self.family }
    }
}

/// The endpoints, their texts as sequences.
pub open spec fn endpoint_views(list: Seq<DiscoveredEndpoint>) -> Seq<EndpointView> {
    list.map_values(|e: DiscoveredEndpoint| e@)
}

/// The endpoints of the addresses of one family, in order.
pub open spec fn family_endpoints(addrs: Seq<Address>, port: u16, v6: bool) -> Seq<EndpointView>
    decreases addrs.len(),
{
    if addrs.len() == 0 {
        Seq::empty()
    } else {
        let init = family_endpoints(addrs.drop_last(), port, v6);
        if addrs.last().v6 == v6 {
            init.push(endpoint_at(addrs.last(), port))
        } else {
            init
        }
    }
}

/// The endpoints of some addresses: first those of IPv6 addresses, then those
/// of IPv4 addresses, each in the order in which they came.
pub open spec fn ordered_endpoints(addrs: Seq<Address>, port: u16) -> Seq<EndpointView> {
    family_endpoints(addrs, port, true) + family_endpoints(addrs, port, false)
}

/// The endpoints of the addresses of one family, added to a list.
fn add_family(out: &mut Vec<DiscoveredEndpoint>, addrs: &Vec<Address>, port: u16, v6: bool)
    ensures
        endpoint_views(final(out)@) == endpoint_views(old(out)@) + family_endpoints(
            addrs@,
            port,
            v6,
        ),
{
    let ghost before = endpoint_views(out@);
    let mut i: usize = 0;
    assert(addrs@.take(0) =~= Seq::<Address>::empty());
    assert(endpoint_views(out@) =~= before + family_endpoints(addrs@.take(0), port, v6));
    while i < addrs.len()
        invariant
            i <= addrs.len(),
            endpoint_views(out@) == before + family_endpoints(addrs@.take(i as int), port, v6),
        decreases addrs.len() - i,
    {
        let ghost done = endpoint_views(out@);
        proof {
            assert(addrs@.take(i + 1).drop_last() =~= addrs@.take(i as int));
            assert(addrs@.take(i + 1).last() == addrs@[i as int]);
        }
        if addrs[i].v6 == v6 {
            let e = DiscoveredEndpoint::from_addr(&addrs[i], port);
            out.push(e);
            assert(endpoint_views(out@) =~= done.push(e@));
        }
        assert(endpoint_views(out@) =~= before + family_endpoints(addrs@.take(i + 1), port, v6));
        i += 1;
    }
    assert(addrs@.take(i as int) =~= addrs@);
}

/// The endpoints of some addresses, IPv6 first.
pub fn order_endpoints(addrs: &Vec<Address>, port: u16) -> (r: Vec<DiscoveredEndpoint>)
    ensures
        endpoint_views(r@) == ordered_endpoints(addrs@, port),
{
    let mut out: Vec<DiscoveredEndpoint> = Vec::new();
    assert(endpoint_views(out@) =~= Seq::<EndpointView>::empty());
    add_family(&mut out, addrs, port, true);
    assert(endpoint_views(out@) =~= family_endpoints(addrs@, port, true));
    add_family(&mut out, addrs, port, false);
    out
}

// ---- Cutting to size ---------------------------------------------------------

/// How many bytes a character takes.
pub open spec fn char_len(c: char) -> nat {
    if (c as u32) < 0x80 {
        1
    } else if (c as u32) < 0x800 {
        2
    } else if (c as u32) < 0x1_0000 {
        3
    } else {
        4
    }
}

/// How many bytes a text takes.
pub open spec fn byte_len(s: Seq<char>) -> nat
    decreases s.len(),
{
    if s.len() == 0 {
        0
    } else {
        byte_len(s.drop_last()) + char_len(s.last())
    }
}

/// How many of the first `n` characters of a text fit into so many bytes.
pub open spec fn fitting(s: Seq<char>, max: nat, n: nat) -> nat
    decreases n,
{
    if n == 0 || byte_len(s.take(n as int)) <= max {
        n
    } else {
        fitting(s, max, (n - 1) as nat)
    }
}

/// The longest beginning of a text that takes at most so many bytes.
pub open spec fn truncated(s: Seq<char>, max: nat) -> Seq<char> {
    s.take(fitting(s, max, s.len()) as int)
}

/// A longer beginning takes no fewer bytes.
proof fn lemma_byte_len_grows(s: Seq<char>, n: int, m: int)
    requires
        0 <= n <= m <= s.len(),
    ensures
        byte_len(s.take(n)) <= byte_len(s.take(m)),
    decreases m - n,
{
    if n < m {
        assert(s.take(m).drop_last() =~= s.take(m - 1));
        lemma_byte_len_grows(s, n, m - 1);
    }
}

/// The count of fitting characters, where it is known that `k` fit and one
/// more does not.
proof fn lemma_fitting(s: Seq<char>, max: nat, k: nat, n: nat)
    requires
        k <= n <= s.len(),
        byte_len(s.take(k as int)) <= max,
        k < n ==> byte_len(s.take((k + 1) as int)) > max,
    ensures
        fitting(s, max, n) == k,
    decreases n,
{
    if k < n {
        lemma_byte_len_grows(s, (k + 1) as int, n as int);
        lemma_fitting(s, max, k, (n - 1) as nat);
    }
}

/// Cut a text to at most so many bytes, between two characters.
pub fn truncate_field(value: &str, max: usize) -> (r: String)
    ensures
        r@ == truncated(value@, max as nat),
{
    let v = chars_of(value);
    let mut out = String::new();
    let mut used: usize = 0;
    let mut i: usize = 0;
    assert(value@.take(0) =~= Seq::<char>::empty());
    assert(out@ =~= value@.take(0));
    while i < v.len()
        invariant
            v@ == value@,
            i <= v.len(),
            out@ == value@.take(i as int),
            used == byte_len(value@.take(i as int)),
            used <= max,
        decreases v.len() - i,
    {
        let c = v[i];
        let n: usize = if (c as u32) < 0x80 {
            1
        } else if (c as u32) < 0x800 {
            2
        } else if (c as u32) < 0x1_0000 {
            3
        } else {
            4
        };
        proof {
            assert(value@.take(i + 1).drop_last() =~= value@.take(i as int));
            assert(value@.take(i + 1).last() == c);
        }
        if n > max - used {
            proof {
                lemma_fitting(value@, max as nat, i as nat, value@.len());
            }
            return out;
        }
        out.push(c);
        assert(out@ =~= value@.take(i + 1));
        used += n;
        i += 1;
    }
    proof {
        lemma_fitting(value@, max as nat, i as nat, value@.len());
    }
    out
}

// ---- Records -----------------------------------------------------------------

/// A record that a service advertises.
#[derive(Debug, PartialEq, Eq, PartialOrd, Ord)]
pub struct TxtRecord {
    /// Its key.
    pub key: String,
    /// Its value.
    pub value: String,
}

impl TxtRecord {
    /// The key and the value.
    pub open spec fn view(self) -> (Seq<char>, Seq<char>) {
        (self.key@, self.value@)
    }
}

impl Clone for TxtRecord {
    fn clone(&self) -> (r: Self)
        ensures
            r == *self,
    {
        TxtRecord { key: self.key.clone(), value: self.value.clone() }
    }
}

/// The keys and the values.
pub open spec fn txt_views(list: Seq<TxtRecord>) -> Seq<(Seq<char>, Seq<char>)> {
    list.map_values(|t: TxtRecord| t@)
}

/// A record comes before another: by its key, then by its value.
pub open spec fn record_before(a: (Seq<char>, Seq<char>), b: (Seq<char>, Seq<char>)) -> bool {
    crate::text::lex_lt(a.0, b.0) || (a.0 == b.0 && crate::text::lex_lt(a.1, b.1))
}

/// No record stands behind one that comes after it.
pub open spec fn records_sorted(list: Seq<(Seq<char>, Seq<char>)>) -> bool {
    forall|i: int, j: int|
        0 <= i < j < list.len() ==> !record_before(#[trigger] list[j], #[trigger] list[i])
}

/// Records are in a total order.
proof fn lemma_record_order(
    a: (Seq<char>, Seq<char>),
    b: (Seq<char>, Seq<char>),
    c: (Seq<char>, Seq<char>),
)
    ensures
        !record_before(a, a),
        record_before(a, b) && record_before(b, c) ==> record_before(a, c),
        record_before(a, b) || record_before(b, a) || a == b,
        record_before(a, b) ==> !record_before(b, a),
{
    crate::text::lemma_lex_irreflexive(a.0);
    crate::text::lemma_lex_irreflexive(a.1);
    crate::text::lemma_lex_irreflexive(b.0);
    crate::text::lemma_lex_irreflexive(b.1);
    crate::text::lemma_lex_total(a.0, b.0);
    crate::text::lemma_lex_total(a.1, b.1);
    if crate::text::lex_lt(a.0, b.0) && crate::text::lex_lt(b.0, c.0) {
        crate::text::lemma_lex_transitive(a.0, b.0, c.0);
    }
    if crate::text::lex_lt(a.1, b.1) && crate::text::lex_lt(b.1, c.1) {
        crate::text::lemma_lex_transitive(a.1, b.1, c.1);
    }
    if crate::text::lex_lt(a.0, b.0) && crate::text::lex_lt(b.0, a.0) {
        crate::text::lemma_lex_transitive(a.0, b.0, a.0);
    }
    if crate::text::lex_lt(a.1, b.1) && crate::text::lex_lt(b.1, a.1) {
        crate::text::lemma_lex_transitive(a.1, b.1, a.1);
    }
}

fn record_less(a: &TxtRecord, b: &TxtRecord) -> (r: bool)
    ensures
        r == record_before(a@, b@),
{
    if str_less(a.key.as_str(), b.key.as_str()) {
        return true;
    }
    str_eq(a.key.as_str(), b.key.as_str()) && str_less(a.value.as_str(), b.value.as_str())
}

/// Put a record into a sorted list, where it belongs.
fn insert_record(list: &mut Vec<TxtRecord>, t: TxtRecord)
    requires
        records_sorted(txt_views(old(list)@)),
    ensures
        records_sorted(txt_views(final(list)@)),
        txt_views(final(list)@).to_multiset() == txt_views(old(list)@).to_multiset().insert(t@),
        final(list)@.len() == old(list)@.len() + 1,
{
    let ghost before = txt_views(list@);
    let mut i: usize = list.len();
    while i > 0 && record_less(&t, &list[i - 1])
        invariant
            i <= list.len(),
            list@ == old(list)@,
            before == txt_views(list@),
            records_sorted(before),
            forall|j: int| i <= j < before.len() ==> record_before(t@, #[trigger] before[j]),
        decreases i,
    {
        assert(before[i - 1] == list@[i - 1]@);
        i -= 1;
    }
    let ghost tv = t@;
    list.insert(i, t);
    proof {
        let after = txt_views(list@);
        assert(after =~= before.insert(i as int, tv));
        assert forall|a: int, b: int| 0 <= a < b < after.len() implies !record_before(
            #[trigger] after[b],
            #[trigger] after[a],
        ) by {
            let ia = if a < i {
                a
            } else {
                a - 1
            };
            let ib = if b < i {
                b
            } else {
                b - 1
            };
            if a != i && b != i {
                assert(after[a] == before[ia] && after[b] == before[ib]);
            } else if a == i {
                assert(after[b] == before[ib]);
                lemma_record_order(tv, before[ib], tv);
            } else {
                assert(after[a] == before[ia]);
                if record_before(tv, before[ia]) {
                    if ia < i - 1 {
                        lemma_record_order(tv, before[ia], before[i - 1]);
                        lemma_record_order(before[ia], before[i - 1], tv);
                        assert(!record_before(before[i - 1], before[ia]));
                    }
                    assert(i > 0);
                    assert(before[i - 1] == old(list)@[i - 1]@);
                    assert(!record_before(tv, before[i - 1]));
                }
            }
        }
        after.to_multiset_ensures();
        assert(after.remove(i as int) =~= before);
        assert(after[i as int] == tv);
        assert(after.contains(tv));
        assert(after.to_multiset() =~= before.to_multiset().insert(tv));
    }
}

// ---- Services ----------------------------------------------------------------

/// A service as it was seen.
#[derive(Debug, PartialEq, Eq)]
pub struct RawDiscoveredService {
    /// Its type.
    pub service_type: String,
    /// The name of the instance.
    pub instance_name: String,
    /// The host that it names.
    pub host: String,
    /// The port that it names.
    pub port: u16,
    /// Its addresses.
    pub addresses: Vec<Address>,
    /// Its records.
    pub txt: Vec<(String, String)>,
}

/// A service as it was seen, its lists as sequences.
pub struct RawView {
    /// Its type.
    pub service_type: String,
    /// The name of the instance.
    pub instance_name: String,
    /// The host that it names.
    pub host: String,
    /// The port that it names.
    pub port: u16,
    /// Its addresses.
    pub addresses: Seq<Address>,
    /// Its records.
    pub txt: Seq<(String, String)>,
}

impl RawDiscoveredService {
    /// The service, its lists as sequences.
    pub open spec fn view(self) -> RawView {
        RawView {
            service_type: self.service_type,
            instance_name: self.instance_name,
            host: self.host,
            port: self.port,
            addresses: self.addresses@,
            txt: self.txt@,
        }
    }

    /// A service as it was seen.
    pub fn new(
        service_type: String,
        instance_name: String,
        host: String,
        port: u16,
        addresses: Vec<Address>,
        txt: Vec<(String, String)>,
    ) -> (r: Self)
        ensures
            r@ == (RawView {
                service_type,
                instance_name,
                host,
                port,
                addresses: addresses@,
                txt: txt@,
            }),
    {
        RawDiscoveredService { service_type, instance_name, host, port, addresses, txt }
    }
}

fn copy_addresses(list: &Vec<Address>) -> (r: Vec<Address>)
    ensures
        r@ == list@,
{
    let mut out: Vec<Address> = Vec::new();
    let mut i: usize = 0;
    while i < list.len()
        invariant
            i <= list.len(),
            out@ == list@.take(i as int),
        decreases list.len() - i,
    {
        out.push(list[i].clone());
        assert(list@.take(i + 1) =~= list@.take(i as int).push(list@[i as int]));
        i += 1;
    }
    assert(list@.take(i as int) =~= list@);
    out
}

fn copy_pairs(list: &Vec<(String, String)>) -> (r: Vec<(String, String)>)
    ensures
        r@ == list@,
{
    let mut out: Vec<(String, String)> = Vec::new();
    let mut i: usize = 0;
    while i < list.len()
        invariant
            i <= list.len(),
            out@ == list@.take(i as int),
        decreases list.len() - i,
    {
        let t = (list[i].0.clone(), list[i].1.clone());
        assert(t == list@[i as int]);
        out.push(t);
        assert(list@.take(i + 1) =~= list@.take(i as int).push(list@[i as int]));
        i += 1;
    }
    assert(list@.take(i as int) =~= list@);
    out
}

impl Clone for RawDiscoveredService {
    fn clone(&self) -> (r: Self)
        ensures
            r@ == self@,
    {
        RawDiscoveredService {
            service_type: self.service_type.clone(),
            instance_name: self.instance_name.clone(),
            host: self.host.clone(),
            port: self.port,
            addresses: copy_addresses(&self.addresses),
            txt: copy_pairs(&self.txt),
        }
    }
}

/// The name of an instance: the first label of its full name.
pub open spec fn label_of(fullname: Seq<char>) -> Seq<char> {
    match crate::text::split_first(fullname, '.') {
        Some((label, _)) => label,
        None => fullname,
    }
}

/// The name of an instance.
pub fn instance_label(fullname: &str) -> (r: String)
    ensures
        r@ == label_of(fullname@),
{
    match split_once(fullname, '.') {
        Some((label, _)) => label.to_owned(),
        None => fullname.to_owned(),
    }
}

/// A service that is held. It is no device.
#[derive(Debug, PartialEq, Eq)]
pub struct DiscoveredService {
    /// What tells it from others: its kind, name and type.
    pub key: String,
    /// What it is taken for.
    pub driver_kind: DiscoveryDriverKind,
    /// Its type.
    pub service_type: String,
    /// The name of the instance.
    pub name: String,
    /// The host that it names.
    pub host: String,
    /// The port that it names.
    pub port: u16,
    /// Where it can be managed, IPv6 first.
    pub endpoints: Vec<DiscoveredEndpoint>,
    /// The first of those.
    pub primary_address: String,
    /// Its records, sorted.
    pub txt: Vec<TxtRecord>,
    /// When it was last seen, in Unix nanoseconds.
    pub last_seen_unix_ns: i64,
    /// The discovery domain of the node that saw it.
    pub domain: Option<String>,
    /// When it is dropped.
    pub expires_at: Option<u64>,
}

/// A service that is held, its texts as sequences.
pub struct ServiceView {
    /// What tells it from others.
    pub key: Seq<char>,
    /// What it is taken for.
    pub driver_kind: DiscoveryDriverKind,
    /// Its type.
    pub service_type: Seq<char>,
    /// The name of the instance.
    pub name: Seq<char>,
    /// The host that it names.
    pub host: Seq<char>,
    /// The port that it names.
    pub port: u16,
    /// Where it can be managed.
    pub endpoints: Seq<EndpointView>,
    /// The first of those.
    pub primary_address: Seq<char>,
    /// Its records.
    pub txt: Seq<(Seq<char>, Seq<char>)>,
    /// When it was last seen.
    pub last_seen_unix_ns: i64,
    /// The discovery domain of the node that saw it.
    pub domain: Option<Seq<char>>,
    /// When it is dropped.
    pub expires_at: Option<u64>,
}

/// What tells a service from others.
pub open spec fn key_of(kind: DiscoveryDriverKind, name: Seq<char>, ty: Seq<char>) -> Seq<char> {
    kind_name(kind) + "|"@ + name + "|"@ + ty
}

/// The first so many of a list.
pub open spec fn at_most<A>(list: Seq<A>, n: nat) -> Seq<A> {
    if list.len() <= n {
        list
    } else {
        list.take(n as int)
    }
}

/// A record cut to size.
pub open spec fn cut_record(t: (String, String)) -> (Seq<char>, Seq<char>) {
    (truncated(t.0@, MAX_FIELD_LEN as nat), truncated(t.1@, MAX_TXT_VALUE_LEN as nat))
}

/// The records that are kept of a service, before they are sorted.
pub open spec fn kept_records(txt: Seq<(String, String)>) -> Seq<(Seq<char>, Seq<char>)> {
    at_most(txt, MAX_TXT_RECORDS as nat).map_values(|t: (String, String)| cut_record(t))
}

/// A held service is what was seen, classified and cut to size.
pub open spec fn held_as(
    raw: RawView,
    configured: Option<Seq<char>>,
    expires_at: u64,
    domain: Option<Seq<char>>,
    seen: i64,
    s: ServiceView,
) -> bool {
    let ty = truncated(raw.service_type@, MAX_FIELD_LEN as nat);
    let name = truncated(raw.instance_name@, MAX_FIELD_LEN as nat);
    let host = truncated(raw.host@, MAX_FIELD_LEN as nat);
    let kind = kind_of(ty, configured);
    let endpoints = at_most(ordered_endpoints(raw.addresses, raw.port), MAX_ENDPOINTS as nat);
    &&& s.key == key_of(kind, name, ty)
    &&& s.driver_kind == kind
    &&& s.service_type == ty
    &&& s.name == name
    &&& s.host == host
    &&& s.port == raw.port
    &&& s.endpoints == endpoints
    &&& s.primary_address == (if endpoints.len() > 0 {
        endpoints[0].address
    } else {
        host
    })
    &&& records_sorted(s.txt)
    &&& s.txt.to_multiset() == kept_records(raw.txt).to_multiset()
    &&& s.last_seen_unix_ns == seen
    &&& s.domain == domain
    &&& s.expires_at == Some(expires_at)
}

/// A service is to be dropped.
pub open spec fn expired(s: ServiceView, now: u64) -> bool {
    match s.expires_at {
        Some(deadline) => now >= deadline,
        None => false,
    }
}

fn copy_endpoints(list: &Vec<DiscoveredEndpoint>) -> (r: Vec<DiscoveredEndpoint>)
    ensures
        r@ == list@,
{
    let mut out: Vec<DiscoveredEndpoint> = Vec::new();
    let mut i: usize = 0;
    while i < list.len()
        invariant
            i <= list.len(),
            out@ == list@.take(i as int),
        decreases list.len() - i,
    {
        out.push(list[i].clone());
        assert(list@.take(i + 1) =~= list@.take(i as int).push(list@[i as int]));
        i += 1;
    }
    assert(list@.take(i as int) =~= list@);
    out
}

fn copy_txt(list: &Vec<TxtRecord>) -> (r: Vec<TxtRecord>)
    ensures
        r@ == list@,
{
    let mut out: Vec<TxtRecord> = Vec::new();
    let mut i: usize = 0;
    while i < list.len()
        invariant
            i <= list.len(),
            out@ == list@.take(i as int),
        decreases list.len() - i,
    {
        out.push(list[i].clone());
        assert(list@.take(i + 1) =~= list@.take(i as int).push(list@[i as int]));
        i += 1;
    }
    assert(list@.take(i as int) =~= list@);
    out
}

impl Clone for DiscoveredService {
    fn clone(&self) -> (r: Self)
        ensures
            r@ == self@,
    {
        DiscoveredService {
            key: self.key.clone(),
            driver_kind: self.driver_kind,
            service_type: self.service_type.clone(),
            name: self.name.clone(),
            host: self.host.clone(),
            port: self.port,
            endpoints: copy_endpoints(&self.endpoints),
            primary_address: self.primary_address.clone(),
            txt: copy_txt(&self.txt),
            last_seen_unix_ns: self.last_seen_unix_ns,
            domain: clone_opt(&self.domain),
            expires_at: self.expires_at,
        }
    }
}

/// The records of a service: the first few, each cut to size, sorted.
fn keep_records(txt: &Vec<(String, String)>) -> (r: Vec<TxtRecord>)
    ensures
        records_sorted(txt_views(r@)),
        txt_views(r@).to_multiset() == kept_records(txt@).to_multiset(),
{
    let mut out: Vec<TxtRecord> = Vec::new();
    let ghost all = kept_records(txt@);
    let n: usize = if txt.len() <= MAX_TXT_RECORDS {
        txt.len()
    } else {
        MAX_TXT_RECORDS
    };
    let mut i: usize = 0;
    assert(all.len() == n);
    assert(txt_views(out@) =~= all.take(0));
    while i < n
        invariant
            i <= n,
            n <= txt.len(),
            n <= MAX_TXT_RECORDS,
            all == kept_records(txt@),
            all.len() == n,
            records_sorted(txt_views(out@)),
            txt_views(out@).to_multiset() == all.take(i as int).to_multiset(),
        decreases n - i,
    {
        let t = TxtRecord {
            key: truncate_field(txt[i].0.as_str(), MAX_FIELD_LEN),
            value: truncate_field(txt[i].1.as_str(), MAX_TXT_VALUE_LEN),
        };
        assert(t@ == all[i as int]);
        insert_record(&mut out, t);
        proof {
            let shorter = all.take(i as int);
            shorter.to_multiset_ensures();
            assert(all.take(i + 1) =~= shorter.push(all[i as int]));
        }
        i += 1;
    }
    assert(all.take(i as int) =~= all);
    out
}

impl DiscoveredService {
    /// The service, its texts as sequences.
    pub open spec fn view(self) -> ServiceView {
        ServiceView {
            key: self.key@,
            driver_kind: self.driver_kind,
            service_type: self.service_type@,
            name: self.name@,
            host: self.host@,
            port: self.port,
            endpoints: endpoint_views(self.endpoints@),
            primary_address: self.primary_address@,
            txt: txt_views(self.txt@),
            last_seen_unix_ns: self.last_seen_unix_ns,
            domain: crate::text::text_opt(self.domain),
            expires_at: self.expires_at,
        }
    }

    /// Classify what was seen and cut it to size. The domain is that of the
    /// observing node; what a responder says of its domain is not looked at.
    pub fn from_raw(
        raw: &RawDiscoveredService,
        configured_zowietek: Option<&str>,
        expires_at: u64,
        domain: Option<String>,
        seen_unix_ns: i64,
    ) -> (r: Self)
        ensures
            held_as(
                raw@,
                ref_text(configured_zowietek),
                expires_at,
                crate::text::text_opt(domain),
                seen_unix_ns,
                r@,
            ),
    {
        let service_type = truncate_field(raw.service_type.as_str(), MAX_FIELD_LEN);
        let name = truncate_field(raw.instance_name.as_str(), MAX_FIELD_LEN);
        let host = truncate_field(raw.host.as_str(), MAX_FIELD_LEN);
        let driver_kind = infer_driver_kind(service_type.as_str(), configured_zowietek);
        let mut endpoints = order_endpoints(&raw.addresses, raw.port);
        let ghost all = endpoint_views(endpoints@);
        if endpoints.len() > MAX_ENDPOINTS {
            endpoints.truncate(MAX_ENDPOINTS);
        }
        assert(endpoint_views(endpoints@) =~= at_most(all, MAX_ENDPOINTS as nat));
        let primary_address = if endpoints.len() > 0 {
            assert(endpoint_views(endpoints@)[0] == endpoints@[0]@);
            endpoints[0].address.clone()
        } else {
            host.clone()
        };
        let head = cat3(driver_kind.as_str(), "|", name.as_str());
        let key = cat3(head.as_str(), "|", service_type.as_str());
        DiscoveredService {
            key,
            driver_kind,
            service_type,
            name,
            host,
            port: raw.port,
            endpoints,
            primary_address,
            txt: keep_records(&raw.txt),
            last_seen_unix_ns: seen_unix_ns,
            domain,
            expires_at: Some(expires_at),
        }
    }

    /// Where the service is best managed; its host where no address is known.
    pub fn primary(&self) -> (r: DiscoveredEndpoint)
        ensures
            r@ == (if self@.endpoints.len() > 0 {
                self@.endpoints[0]
            } else {
                EndpointView { address: self@.primary_address, family: AddressFamily::Ipv6 }
            }),
    {
        if self.endpoints.len() > 0 {
            assert(self@.endpoints[0] == self.endpoints@[0]@);
            self.endpoints[0].clone()
        } else {
            DiscoveredEndpoint {
                address: self.primary_address.clone(),
                family: AddressFamily::Ipv6,
            }
        }
    }

    /// Whether the service is to be dropped.
    pub fn is_expired(&self, now: u64) -> (r: bool)
        ensures
            r == expired(self@, now),
    {
        match self.expires_at {
            Some(deadline) => now >= deadline,
            None => false,
        }
    }
}

// ---- The inventory -----------------------------------------------------------

/// The services that are held, and the order in which they came.
pub struct InventoryView {
    /// The services by their keys.
    pub rows: Map<Seq<char>, ServiceView>,
    /// The keys in the order in which they came.
    pub order: Seq<Seq<char>>,
    /// How many services are held at most.
    pub capacity: nat,
}

/// The inventory with a service: seen before, it takes the place of what was
/// seen; new, it comes last, and the oldest leaves where there are too many.
pub open spec fn upserted(v: InventoryView, s: ServiceView) -> InventoryView {
    let rows = v.rows.insert(s.key, s);
    let order = if v.rows.contains_key(s.key) {
        v.order
    } else {
        v.order.push(s.key)
    };
    if order.len() > v.capacity {
        InventoryView { rows: rows.remove(order[0]), order: order.drop_first(), ..v }
    } else {
        InventoryView { rows, order, ..v }
    }
}

/// The services that are not to be dropped.
pub open spec fn live_rows(rows: Map<Seq<char>, ServiceView>, now: u64) -> Map<
    Seq<char>,
    ServiceView,
> {
    rows.restrict(Set::new(|k: Seq<char>| rows.contains_key(k) && !expired(rows[k], now)))
}

/// The keys of some services, in the order in which they came.
pub open spec fn order_of(order: Seq<Seq<char>>, rows: Map<Seq<char>, ServiceView>) -> Seq<
    Seq<char>,
>
    decreases order.len(),
{
    if order.len() == 0 {
        Seq::empty()
    } else {
        let init = order_of(order.drop_last(), rows);
        if rows.contains_key(order.last()) {
            init.push(order.last())
        } else {
            init
        }
    }
}

/// The inventory without what is to be dropped.
pub open spec fn purged(v: InventoryView, now: u64) -> InventoryView {
    let rows = live_rows(v.rows, now);
    InventoryView { rows, order: order_of(v.order, rows), ..v }
}

/// The order lists every service once, every service stands under its key, and
/// there are not too many.
pub open spec fn inventory_wf(v: InventoryView) -> bool {
    &&& v.order.no_duplicates()
    &&& forall|k: Seq<char>| #[trigger] v.rows.contains_key(k) <==> v.order.contains(k)
    &&& forall|k: Seq<char>| #[trigger] v.rows.contains_key(k) ==> v.rows[k].key == k
    &&& 1 <= v.capacity
    &&& v.order.len() <= v.capacity
}

/// The keys of a list of services.
pub open spec fn service_keys(list: Seq<DiscoveredService>) -> Seq<Seq<char>> {
    list.map_values(|s: DiscoveredService| s.key@)
}

/// What a filtered order lists.
proof fn lemma_order_of(order: Seq<Seq<char>>, rows: Map<Seq<char>, ServiceView>)
    ensures
        forall|k: Seq<char>|
            order_of(order, rows).contains(k) <==> (order.contains(k) && rows.contains_key(k)),
        order.no_duplicates() ==> order_of(order, rows).no_duplicates(),
        order_of(order, rows).len() <= order.len(),
    decreases order.len(),
{
    if order.len() > 0 {
        let init = order.drop_last();
        let last = order.last();
        lemma_order_of(init, rows);
        let f = order_of(init, rows);
        let g = order_of(order, rows);
        assert forall|k: Seq<char>| g.contains(k) <==> (order.contains(k) && rows.contains_key(
            k,
        )) by {
            if order.contains(k) {
                let i = choose|i: int| 0 <= i < order.len() && order[i] == k;
                if i < init.len() {
                    assert(init[i] == k);
                    assert(init.contains(k));
                }
            }
            if init.contains(k) {
                let i = choose|i: int| 0 <= i < init.len() && init[i] == k;
                assert(order[i] == k);
            }
            assert(order[order.len() - 1] == last);
            if rows.contains_key(last) {
                assert(g == f.push(last));
                if f.contains(k) {
                    let i = choose|i: int| 0 <= i < f.len() && f[i] == k;
                    assert(g[i] == k);
                }
                if k == last {
                    assert(g[f.len() as int] == k);
                }
                if g.contains(k) && k != last {
                    let i = choose|i: int| 0 <= i < g.len() && g[i] == k;
                    assert(f[i] == k);
                }
            }
        }
        if order.no_duplicates() {
            assert(init.no_duplicates()) by {
                assert forall|i: int, j: int| 0 <= i < init.len() && 0 <= j < init.len() && i
                    != j implies init[i] != init[j] by {
                    assert(order[i] != order[j]);
                }
            }
            assert(!init.contains(last)) by {
                if init.contains(last) {
                    let i = choose|i: int| 0 <= i < init.len() && init[i] == last;
                    assert(order[i] == order[order.len() - 1]);
                }
            }
            assert(!f.contains(last));
        }
    }
}

/// The services that were seen. They are held for a while, and are no devices.
pub struct DiscoveryInventory {
    rows: Table<DiscoveredService>,
    order: Vec<String>,
    capacity: usize,
}

impl DiscoveryInventory {
    /// The services, and the order in which they came.
    pub closed spec fn view(self) -> InventoryView {
        InventoryView {
            rows: self.rows@.map_values(|s: DiscoveredService| s@),
            order: crate::text::texts(self.order@),
            capacity: self.capacity as nat,
        }
    }

    /// The inventory is one that the operations below can reach.
    pub closed spec fn wf(self) -> bool {
        self.rows.wf() && inventory_wf(self@)
    }

    /// What a well-formed inventory promises.
    pub proof fn lemma_wf(self)
        requires
            self.wf(),
        ensures
            inventory_wf(self@),
    {
    }

    /// An inventory that holds at most so many services, and at least one.
    pub fn new(capacity: usize) -> (r: Self)
        ensures
            r.wf(),
            r@.rows == Map::<Seq<char>, ServiceView>::empty(),
            r@.order == Seq::<Seq<char>>::empty(),
            r@.capacity == (if capacity == 0 {
                1
            } else {
                capacity as nat
            }),
    {
        let r = DiscoveryInventory {
            rows: Table::new(),
            order: Vec::new(),
            capacity: if capacity == 0 {
                1
            } else {
                capacity
            },
        };
        assert(r@.rows =~= Map::<Seq<char>, ServiceView>::empty());
        assert(r@.order =~= Seq::<Seq<char>>::empty());
        r
    }

    /// A service was seen.
    pub fn upsert(&mut self, service: DiscoveredService)
        requires
            old(self).wf(),
        ensures
            final(self).wf(),
            final(self)@ == upserted(old(self)@, service@),
    {
        let ghost v = self@;
        let ghost sv = service@;
        let ghost texts = crate::text::texts(self.order@);
        let key = service.key.clone();
        let fresh = self.rows.insert(service.key.clone(), service).is_none();
        assert(self.rows@.map_values(|s: DiscoveredService| s@) =~= v.rows.insert(sv.key, sv));
        if fresh {
            self.order.push(key);
            assert(crate::text::texts(self.order@) =~= texts.push(sv.key));
        }
        let ghost mid = self@;
        proof {
            lemma_upsert_mid(v, sv, mid);
        }
        if self.order.len() > self.capacity {
            let evicted = self.order.remove(0);
            assert(crate::text::texts(self.order@) =~= mid.order.drop_first());
            assert(evicted@ == mid.order[0]);
            self.rows.remove(evicted.as_str());
            assert(self@.rows =~= mid.rows.remove(mid.order[0]));
            proof {
                lemma_evict(mid, self@);
            }
        }
    }

    /// The services that are not to be dropped, in key order. The others are
    /// dropped.
    pub fn snapshot_at(&mut self, now: u64) -> (r: Vec<DiscoveredService>)
        requires
            old(self).wf(),
        ensures
            final(self).wf(),
            final(self)@ == purged(old(self)@, now),
            crate::table::strictly_sorted(service_keys(r@)),
            forall|k: Seq<char>|
                service_keys(r@).contains(k) <==> final(self)@.rows.contains_key(k),
            forall|i: int|
                0 <= i < r@.len() ==> (#[trigger] r@[i])@ == final(self)@.rows[r@[i].key@],
    {
        let ghost v = self@;
        let ghost live = live_rows(v.rows, now);
        let mut out: Vec<DiscoveredService> = Vec::new();
        let mut kept: Table<DiscoveredService> = Table::new();
        let ghost keys = self.rows.keys();
        proof {
            self.rows.lemma_rows();
        }
        let mut i: usize = 0;
        assert(kept@.map_values(|s: DiscoveredService| s@) =~= rows_among(live, keys.take(0)));
        while i < self.rows.len()
            invariant
                self.wf(),
                *self == *old(self),
                v == self@,
                live == live_rows(v.rows, now),
                keys == self.rows.keys(),
                i <= keys.len(),
                keys.len() == self.rows.values().len(),
                crate::table::strictly_sorted(keys),
                forall|j: int|
                    0 <= j < keys.len() ==> self.rows@.contains_key(#[trigger] keys[j])
                        && self.rows@[keys[j]] == self.rows.values()[j],
                kept.wf(),
                kept@.map_values(|s: DiscoveredService| s@) == rows_among(
                    live,
                    keys.take(i as int),
                ),
                crate::table::strictly_sorted(service_keys(out@)),
                lists_live(service_keys(out@), live, keys.take(i as int)),
                forall|j: int| 0 <= j < out@.len() ==> (#[trigger] out@[j])@ == live[out@[j].key@],
            decreases keys.len() - i,
        {
            let ghost k = keys[i as int];
            let ghost before = out@;
            let ghost done = kept@.map_values(|s: DiscoveredService| s@);
            let s = self.rows.value_at(i);
            assert(self.rows@.contains_key(keys[i as int]));
            assert(v.rows.contains_key(k) && v.rows[k] == s@ && s.key@ == k);
            proof {
                lemma_take_contains(keys, i as int);
            }
            if !s.is_expired(now) {
                assert(live.contains_key(k) && live[k] == s@);
                let copy = s.clone();
                let ghost cv = copy@;
                kept.insert(copy.key.clone(), copy);
                let shown = s.clone();
                out.push(shown);
                proof {
                    assert(service_keys(out@) =~= service_keys(before).push(k));
                    assert(kept@.map_values(|s: DiscoveredService| s@) =~= done.insert(k, cv));
                    lemma_rows_among(live, keys, i as int);
                    lemma_push_sorted(service_keys(before), keys, i as int, live);
                    assert forall|q: Seq<char>| #[trigger]
                        service_keys(out@).contains(q) <==> (live.contains_key(q) && keys.take(
                            i + 1,
                        ).contains(q)) by {
                        let sk = service_keys(before);
                        let all_keys = service_keys(out@);
                        assert(keys.take(i + 1).contains(q) <==> (keys.take(i as int).contains(q)
                            || q == k));
                        assert(sk.contains(q) <==> (live.contains_key(q) && keys.take(
                            i as int,
                        ).contains(q)));
                        if sk.contains(q) {
                            let z = choose|z: int| 0 <= z < sk.len() && sk[z] == q;
                            assert(service_keys(out@)[z] == q);
                        }
                        if q == k {
                            assert(service_keys(out@)[sk.len() as int] == q);
                        }
                        if service_keys(out@).contains(q) && q != k {
                            let z = choose|z: int| 0 <= z < all_keys.len() && all_keys[z] == q;
                            assert(sk[z] == q);
                        }
                    }
                }
            } else {
                proof {
                    assert(!live.contains_key(k));
                    lemma_rows_among(live, keys, i as int);
                    assert forall|q: Seq<char>| #[trigger]
                        service_keys(out@).contains(q) <==> (live.contains_key(q) && keys.take(
                            i + 1,
                        ).contains(q)) by {
                        assert(keys.take(i + 1).contains(q) <==> (keys.take(i as int).contains(q)
                            || q == k));
                        assert(service_keys(out@).contains(q) <==> (live.contains_key(q)
                            && keys.take(i as int).contains(q)));
                    }
                }
            }
            i += 1;
        }
        assert(keys.take(i as int) =~= keys);
        let mut order: Vec<String> = Vec::new();
        let mut j: usize = 0;
        let ghost all = crate::text::texts(self.order@);
        assert(all.take(0) =~= Seq::<Seq<char>>::empty());
        assert(crate::text::texts(order@) =~= Seq::<Seq<char>>::empty());
        proof {
            assert(rows_among(live, keys) =~= live) by {
                assert forall|k: Seq<char>| live.contains_key(k) implies keys.contains(k) by {
                    assert(self.rows@.contains_key(k));
                    let z = self.rows.lemma_find(k);
                    assert(keys[z] == k);
                }
            }
        }
        while j < self.order.len()
            invariant
                j <= self.order.len(),
                kept.wf(),
                kept@.map_values(|s: DiscoveredService| s@) == live,
                all == crate::text::texts(self.order@),
                crate::text::texts(order@) == order_of(all.take(j as int), live),
            decreases self.order.len() - j,
        {
            let ghost before = crate::text::texts(order@);
            proof {
                assert(all.take(j + 1).drop_last() =~= all.take(j as int));
                assert(all.take(j + 1).last() == self.order@[j as int]@);
            }
            if kept.contains(self.order[j].as_str()) {
                assert(live.contains_key(self.order@[j as int]@));
                let copy = self.order[j].clone();
                order.push(copy);
                assert(crate::text::texts(order@) =~= before.push(self.order@[j as int]@));
            } else {
                assert(!live.contains_key(self.order@[j as int]@));
            }
            j += 1;
        }
        assert(all.take(j as int) =~= all);
        self.rows = kept;
        self.order = order;
        proof {
            lemma_order_of(v.order, live);
            assert(self@.rows =~= live);
        }
        out
    }

    /// Drop everything.
    pub fn clear(&mut self)
        requires
            old(self).wf(),
        ensures
            final(self).wf(),
            final(self)@.rows == Map::<Seq<char>, ServiceView>::empty(),
            final(self)@.order == Seq::<Seq<char>>::empty(),
            final(self)@.capacity == old(self)@.capacity,
    {
        self.rows.clear();
        self.order.clear();
        assert(self@.rows =~= Map::<Seq<char>, ServiceView>::empty());
        assert(self@.order =~= Seq::<Seq<char>>::empty());
    }
}

impl Default for DiscoveryInventory {
    fn default() -> (r: Self)
        ensures
            r.wf(),
            r@.rows == Map::<Seq<char>, ServiceView>::empty(),
            r@.capacity == 256,
    {
        DiscoveryInventory::new(DEFAULT_INVENTORY_CAPACITY)
    }
}

/// The services under some keys.
pub open spec fn rows_among(rows: Map<Seq<char>, ServiceView>, keys: Seq<Seq<char>>) -> Map<
    Seq<char>,
    ServiceView,
> {
    rows.restrict(Set::new(|k: Seq<char>| rows.contains_key(k) && keys.contains(k)))
}

/// Some keys are those of live services among others.
pub open spec fn lists_live(
    some: Seq<Seq<char>>,
    live: Map<Seq<char>, ServiceView>,
    keys: Seq<Seq<char>>,
) -> bool {
    forall|k: Seq<char>| #[trigger]
        some.contains(k) <==> (live.contains_key(k) && keys.contains(k))
}

proof fn lemma_take_contains(keys: Seq<Seq<char>>, i: int)
    requires
        0 <= i < keys.len(),
    ensures
        forall|q: Seq<char>| #[trigger]
            keys.take(i + 1).contains(q) <==> (keys.take(i).contains(q) || q == keys[i]),
{
    let longer = keys.take(i + 1);
    let shorter = keys.take(i);
    assert forall|q: Seq<char>| longer.contains(q) <==> (shorter.contains(q) || q == keys[i]) by {
        if longer.contains(q) {
            let z = choose|z: int| 0 <= z < longer.len() && longer[z] == q;
            if z < i {
                assert(shorter[z] == q);
            }
        }
        if shorter.contains(q) {
            let z = choose|z: int| 0 <= z < shorter.len() && shorter[z] == q;
            assert(longer[z] == q);
        }
        if q == keys[i] {
            assert(longer[i] == q);
        }
    }
}

/// One more key adds its service, where that is among them.
proof fn lemma_rows_among(rows: Map<Seq<char>, ServiceView>, keys: Seq<Seq<char>>, i: int)
    requires
        0 <= i < keys.len(),
    ensures
        rows_among(rows, keys.take(i + 1)) == (if rows.contains_key(keys[i]) {
            rows_among(rows, keys.take(i)).insert(keys[i], rows[keys[i]])
        } else {
            rows_among(rows, keys.take(i))
        }),
{
    lemma_take_contains(keys, i);
    let longer = keys.take(i + 1);
    let shorter = keys.take(i);
    assert forall|q: Seq<char>| longer.contains(q) == (shorter.contains(q) || q == keys[i]) by {}
    let a = rows_among(rows, longer);
    let b = rows_among(rows, shorter);
    if rows.contains_key(keys[i]) {
        let c = b.insert(keys[i], rows[keys[i]]);
        assert forall|q: Seq<char>| a.contains_key(q) == c.contains_key(q) by {
            assert(longer.contains(q) == (shorter.contains(q) || q == keys[i]));
        }
        assert(a =~= c);
    } else {
        assert forall|q: Seq<char>| a.contains_key(q) == b.contains_key(q) by {
            assert(longer.contains(q) == (shorter.contains(q) || q == keys[i]));
        }
        assert(a =~= b);
    }
}

/// A later key extends a sorted list of earlier ones.
proof fn lemma_push_sorted(
    some: Seq<Seq<char>>,
    keys: Seq<Seq<char>>,
    i: int,
    live: Map<Seq<char>, ServiceView>,
)
    requires
        crate::table::strictly_sorted(keys),
        crate::table::strictly_sorted(some),
        0 <= i < keys.len(),
        lists_live(some, live, keys.take(i)),
    ensures
        crate::table::strictly_sorted(some.push(keys[i])),
{
    let more = some.push(keys[i]);
    assert forall|a: int, b: int| 0 <= a < b < more.len() implies crate::text::lex_lt(
        #[trigger] more[a],
        #[trigger] more[b],
    ) by {
        if b < some.len() {
            assert(more[a] == some[a] && more[b] == some[b]);
        } else {
            assert(more[a] == some[a]);
            assert(some.contains(some[a]));
            let shorter = keys.take(i);
            let z = choose|z: int| 0 <= z < shorter.len() && shorter[z] == some[a];
            assert(keys[z] == some[a]);
        }
    }
}

proof fn lemma_upsert_mid(v: InventoryView, s: ServiceView, mid: InventoryView)
    requires
        inventory_wf(v),
        mid.capacity == v.capacity,
        mid.rows == v.rows.insert(s.key, s),
        mid.order == (if v.rows.contains_key(s.key) {
            v.order
        } else {
            v.order.push(s.key)
        }),
    ensures
        mid.order.no_duplicates(),
        mid.order.len() <= v.capacity + 1,
        forall|k: Seq<char>| #[trigger] mid.rows.contains_key(k) <==> mid.order.contains(k),
        forall|k: Seq<char>| #[trigger] mid.rows.contains_key(k) ==> mid.rows[k].key == k,
{
    assert forall|k: Seq<char>| #[trigger]
        mid.rows.contains_key(k) <==> mid.order.contains(k) by {
        assert(v.rows.contains_key(k) <==> v.order.contains(k));
        if !v.rows.contains_key(s.key) {
            if k == s.key {
                assert(mid.order[v.order.len() as int] == k);
            } else {
                if v.order.contains(k) {
                    let z = choose|z: int| 0 <= z < v.order.len() && v.order[z] == k;
                    assert(mid.order[z] == k);
                }
                if mid.order.contains(k) {
                    let z = choose|z: int| 0 <= z < mid.order.len() && mid.order[z] == k;
                    assert(v.order[z] == k);
                }
            }
        }
    }
    assert forall|k: Seq<char>| #[trigger] mid.rows.contains_key(k) implies mid.rows[k].key
        == k by {
        if k != s.key {
            assert(v.rows.contains_key(k));
        }
    }
    assert(!v.rows.contains_key(s.key) ==> !v.order.contains(s.key));
}

proof fn lemma_evict(mid: InventoryView, after: InventoryView)
    requires
        mid.order.no_duplicates(),
        mid.order.len() == mid.capacity + 1,
        mid.capacity >= 1,
        forall|k: Seq<char>| #[trigger] mid.rows.contains_key(k) <==> mid.order.contains(k),
        forall|k: Seq<char>| #[trigger] mid.rows.contains_key(k) ==> mid.rows[k].key == k,
        after.capacity == mid.capacity,
        after.order == mid.order.drop_first(),
        after.rows == mid.rows.remove(mid.order[0]),
    ensures
        inventory_wf(after),
{
    assert forall|k: Seq<char>| #[trigger]
        after.rows.contains_key(k) <==> after.order.contains(k) by {
        assert(mid.rows.contains_key(k) <==> mid.order.contains(k));
        if after.order.contains(k) {
            let z = choose|z: int| 0 <= z < after.order.len() && after.order[z] == k;
            assert(mid.order[z + 1] == k);
            assert(mid.order[0] != mid.order[z + 1]);
        }
        if mid.order.contains(k) && k != mid.order[0] {
            let z = choose|z: int| 0 <= z < mid.order.len() && mid.order[z] == k;
            assert(after.order[z - 1] == k);
        }
    }
    assert forall|k: Seq<char>| #[trigger] after.rows.contains_key(k) implies after.rows[k].key
        == k by {
        assert(mid.rows.contains_key(k));
    }
    assert forall|a: int, b: int|
        0 <= a < after.order.len() && 0 <= b < after.order.len() && a != b implies after.order[a]
        != after.order[b] by {
        assert(mid.order[a + 1] != mid.order[b + 1]);
    }
}

// ---- Looking -----------------------------------------------------------------

/// What looks for services.
pub trait DiscoveryBrowser {
    /// Look for services of some types, for at most so long.
    fn browse(&self, service_types: &Vec<String>, budget: Duration) -> (r: Vec<RawDiscoveredService>);
}

/// It finds nothing.
#[derive(Debug, Clone, Copy, PartialEq, Eq, Structural)]
pub struct NullBrowser;

impl DiscoveryBrowser for NullBrowser {
    fn browse(&self, _service_types: &Vec<String>, _budget: Duration) -> (r: Vec<
        RawDiscoveredService,
    >)
        ensures
            r@.len() == 0,
    {
        Vec::new()
    }
}

/// It finds what it was given.
pub struct StaticBrowser {
    services: Vec<RawDiscoveredService>,
}

/// The services, their lists as sequences.
pub open spec fn raw_views(list: Seq<RawDiscoveredService>) -> Seq<RawView> {
    list.map_values(|s: RawDiscoveredService| s@)
}

/// The services of some types.
pub open spec fn of_types(services: Seq<RawView>, types: Seq<Seq<char>>) -> Seq<RawView>
    decreases services.len(),
{
    if services.len() == 0 {
        Seq::empty()
    } else {
        let init = of_types(services.drop_last(), types);
        if has_type(types, services.last().service_type@) {
            init.push(services.last())
        } else {
            init
        }
    }
}

impl StaticBrowser {
    /// What it was given.
    pub closed spec fn view(self) -> Seq<RawView> {
        raw_views(self.services@)
    }

    /// A browser that finds these services.
    pub fn new(services: Vec<RawDiscoveredService>) -> (r: Self)
        ensures
            r@ == raw_views(services@),
    {
        StaticBrowser { services }
    }
}

impl DiscoveryBrowser for StaticBrowser {
    /// What was given and is of a type that is looked for.
    fn browse(&self, service_types: &Vec<String>, _budget: Duration) -> (r: Vec<
        RawDiscoveredService,
    >)
        ensures
            raw_views(r@) == of_types(self@, crate::text::texts(service_types@)),
    {
        let ghost all = raw_views(self.services@);
        let ghost types = crate::text::texts(service_types@);
        let mut out: Vec<RawDiscoveredService> = Vec::new();
        let mut i: usize = 0;
        assert(all.take(0) =~= Seq::<RawView>::empty());
        assert(raw_views(out@) =~= Seq::<RawView>::empty());
        while i < self.services.len()
            invariant
                i <= self.services.len(),
                all == raw_views(self.services@),
                types == crate::text::texts(service_types@),
                raw_views(out@) == of_types(all.take(i as int), types),
            decreases self.services.len() - i,
        {
            let ghost before = raw_views(out@);
            proof {
                assert(all.take(i + 1).drop_last() =~= all.take(i as int));
                assert(all.take(i + 1).last() == self.services@[i as int]@);
            }
            if types_have(service_types, self.services[i].service_type.as_str()) {
                let copy = self.services[i].clone();
                out.push(copy);
                assert(raw_views(out@) =~= before.push(copy@));
            }
            i += 1;
        }
        assert(all.take(i as int) =~= all);
        out
    }
}

/// What the events of one type of service are taken from.
pub trait DrainReceiver: Sized {
    /// What is taken.
    type Event;

    /// Whether taking from a receiver may hand out an event, or none, and leave
    /// the receiver as it is then. A receiver that does not say may do anything.
    open spec fn hands_out(before: Self, event: Option<Self::Event>, after: Self) -> bool {
        true
    }

    /// Take an event that is already there.
    fn try_recv(&mut self) -> (r: Option<Self::Event>)
        ensures
            Self::hands_out(*old(self), r, *final(self)),
    ;
}

/// The share of a scan that one of its receivers may fill.
pub open spec fn share_of(max_events: nat, receivers: nat) -> nat {
    if receivers == 0 {
        0
    } else if max_events / receivers == 0 {
        1
    } else {
        max_events / receivers
    }
}

/// The share of a scan that one of its receivers may fill: an equal one, and at
/// least one event.
pub fn fair_share(max_events: usize, receivers: usize) -> (r: usize)
    ensures
        r == share_of(max_events as nat, receivers as nat),
{
    if receivers == 0 {
        return 0;
    }
    let share = max_events / receivers;
    if share == 0 {
        1
    } else {
        share
    }
}

/// A receiver handed out these events, one after another, and was each time as
/// the one before had left it.
pub open spec fn handed_out<R: DrainReceiver>(states: Seq<R>, taken: Seq<R::Event>) -> bool {
    &&& states.len() == taken.len() + 1
    &&& forall|i: int|
        0 <= i < taken.len() ==> R::hands_out(
            #[trigger] states[i],
            Some(taken[i]),
            states[i + 1],
        )
}

/// A sweep of a receiver added the events that it handed out to those that were
/// held, in order. It ended where the share was filled, and otherwise where the
/// receiver had nothing more.
pub open spec fn swept<R: DrainReceiver>(
    before: R,
    held: Seq<R::Event>,
    share: nat,
    states: Seq<R>,
    taken: Seq<R::Event>,
    after: R,
    now_held: Seq<R::Event>,
) -> bool {
    &&& handed_out(states, taken)
    &&& states[0] == before
    &&& now_held == held + taken
    &&& if now_held.len() < share {
        R::hands_out(states.last(), None, after)
    } else {
        after == states.last()
    }
}

/// When the time is up, take what is already there, up to the share.
pub fn sweep<R: DrainReceiver>(receiver: &mut R, events: &mut Vec<R::Event>, share: usize)
    ensures
        exists|states: Seq<R>, taken: Seq<R::Event>| #[trigger]
            swept(
                *old(receiver),
                old(events)@,
                share as nat,
                states,
                taken,
                *final(receiver),
                final(events)@,
            ),
        old(events)@.len() >= share ==> *final(receiver) == *old(receiver) && final(events)@
            == old(events)@,
        old(events)@.len() < share ==> final(events)@.len() <= share,
{
    let ghost first = *receiver;
    let ghost held = events@;
    let ghost mut states: Seq<R> = seq![first];
    let ghost mut taken: Seq<R::Event> = Seq::empty();
    assert(events@ =~= held + taken);
    while events.len() < share
        invariant
            first == *old(receiver),
            held == old(events)@,
            handed_out(states, taken),
            states[0] == first,
            states.last() == *receiver,
            events@ == held + taken,
            held.len() >= share ==> *receiver == first && events@ == held,
            held.len() < share ==> events@.len() <= share,
        decreases share - events.len(),
    {
        let ghost so_far = states;
        let ghost taken_so_far = taken;
        match receiver.try_recv() {
            Some(event) => {
                events.push(event);
                proof {
                    states = states.push(*receiver);
                    taken = taken.push(event);
                    assert forall|i: int| 0 <= i < taken.len() implies R::hands_out(
                        #[trigger] states[i],
                        Some(taken[i]),
                        states[i + 1],
                    ) by {
                        assert(states[i] == so_far[i]);
                        if i < taken_so_far.len() {
                            assert(taken[i] == taken_so_far[i]);
                            assert(states[i + 1] == so_far[i + 1]);
                        }
                    }
                    assert(events@ =~= held + taken);
                }
            },
            None => {
                assert(swept(first, held, share as nat, states, taken, *receiver, events@));
                return;
            },
        }
    }
    assert(swept(first, held, share as nat, states, taken, *receiver, events@));
}

/// Everything that was collected, receiver after receiver.
pub open spec fn joined<E>(batches: Seq<Vec<E>>) -> Seq<E>
    decreases batches.len(),
{
    if batches.len() == 0 {
        Seq::empty()
    } else {
        joined(batches.drop_last()) + batches.last()@
    }
}

/// What a scan collected, receiver after receiver, and no more than it may.
pub fn collect_bounded<E>(batches: Vec<Vec<E>>, max_events: usize) -> (r: Vec<E>)
    ensures
        r@ == at_most(joined(batches@), max_events as nat),
{
    let ghost all = batches@;
    let mut rest = batches;
    let mut reversed: Vec<Vec<E>> = Vec::new();
    assert(joined(all.take(all.len() as int)) == joined(all)) by {
        assert(all.take(all.len() as int) =~= all);
    }
    while rest.len() > 0
        invariant
            rest@.len() + reversed@.len() == all.len(),
            rest@ == all.take(rest@.len() as int),
            forall|i: int|
                0 <= i < reversed@.len() ==> #[trigger] reversed@[i] == all[all.len() - 1 - i],
        decreases rest.len(),
    {
        if let Some(b) = rest.pop() {
            reversed.push(b);
        }
    }
    let mut out: Vec<E> = Vec::new();
    assert(all.take(0) =~= Seq::<Vec<E>>::empty());
    while reversed.len() > 0
        invariant
            reversed@.len() <= all.len(),
            forall|i: int|
                0 <= i < reversed@.len() ==> #[trigger] reversed@[i] == all[all.len() - 1 - i],
            out@ == joined(all.take(all.len() - reversed@.len())),
        decreases reversed.len(),
    {
        let ghost n = all.len() - reversed@.len();
        if let Some(b) = reversed.pop() {
            let mut batch = b;
            proof {
                assert(batch == all[n]);
                assert(all.take(n + 1).drop_last() =~= all.take(n));
                assert(all.take(n + 1).last() == all[n]);
            }
            out.append(&mut batch);
        }
    }
    assert(all.take(all.len() as int) =~= all);
    if out.len() > max_events {
        out.truncate(max_events);
    }
    out
}

// ---- One scan at a time ------------------------------------------------------

/// Lets one scan run at a time.
pub struct ScanGate {
    running: Option<OperationId>,
}

/// What came of asking for a scan.
pub enum ScanAdmission {
    /// It runs.
    Started(ScanGuard),
    /// Another runs: its id.
    Attached(OperationId),
}

/// The scan that runs.
pub struct ScanGuard {
    op: OperationId,
}

impl ScanGuard {
    /// The id of the scan.
    pub closed spec fn view(self) -> Seq<char> {
        self.op@
    }

    /// The id of the scan.
    pub fn operation(&self) -> (r: &OperationId)
        ensures
            r@ == self@,
    {
        &self.op
    }
}

/// The scan that runs once one was asked for.
pub open spec fn scan_after_asking(running: Option<Seq<char>>, op: Seq<char>) -> Option<Seq<char>> {
    match running {
        Some(_) => running,
        None => Some(op),
    }
}

/// The scan that runs once one is over.
pub open spec fn scan_after_ending(running: Option<Seq<char>>, op: Seq<char>) -> Option<Seq<char>> {
    if running == Some(op) {
        None
    } else {
        running
    }
}

impl ScanGate {
    /// The id of the scan that runs.
    pub closed spec fn view(self) -> Option<Seq<char>> {
        match self.running {
            Some(op) => Some(op@),
            None => None,
        }
    }

    /// No scan runs.
    pub fn new() -> (r: Self)
        ensures
            r@ is None,
    {
        ScanGate { running: None }
    }

    /// Ask for a scan.
    pub fn begin(&mut self, op: OperationId) -> (r: ScanAdmission)
        ensures
            final(self)@ == scan_after_asking(old(self)@, op@),
            match old(self)@ {
                Some(running) => r matches ScanAdmission::Attached(other) && other@ == running,
                None => r matches ScanAdmission::Started(guard) && guard@ == op@,
            },
    {
        match &self.running {
            Some(running) => {
                return ScanAdmission::Attached(running.clone());
            },
            None => {},
        }
        self.running = Some(op.clone());
        ScanAdmission::Started(ScanGuard { op })
    }

    /// A scan is over, and its guard with it. Where another scan runs, that one
    /// goes on.
    pub fn finish(&mut self, guard: ScanGuard)
        ensures
            final(self)@ == scan_after_ending(old(self)@, guard@),
    {
        let ours = match &self.running {
            Some(running) => str_eq(running.as_str(), guard.op.as_str()),
            None => false,
        };
        if ours {
            self.running = None;
        }
    }
}

impl Default for ScanGate {
    fn default() -> (r: Self)
        ensures
            r@ is None,
    {
        ScanGate::new()
    }
}

// ---- Laws --------------------------------------------------------------------

/// The inventory never holds more than it may, and always holds what was seen
/// last.
pub proof fn law_inventory_is_bounded(v: InventoryView, s: ServiceView)
    requires
        inventory_wf(v),
    ensures
        upserted(v, s).order.len() <= v.capacity,
        upserted(v, s).rows.contains_key(s.key),
        upserted(v, s).rows[s.key] == s,
{
    let rows = v.rows.insert(s.key, s);
    let order = if v.rows.contains_key(s.key) {
        v.order
    } else {
        v.order.push(s.key)
    };
    if order.len() > v.capacity {
        assert(!v.rows.contains_key(s.key));
        assert(!v.order.contains(s.key));
        assert(order[0] == v.order[0]);
        assert(v.order.contains(v.order[0]));
        assert(order[0] != s.key);
    }
}

/// A service that is seen again is held once, as it was seen last.
pub proof fn law_seen_again_is_held_once(v: InventoryView, a: ServiceView, b: ServiceView)
    requires
        inventory_wf(v),
        a.key == b.key,
    ensures
        upserted(upserted(v, a), b).order == upserted(v, a).order,
        upserted(upserted(v, a), b).rows == upserted(v, a).rows.insert(b.key, b),
{
    law_inventory_is_bounded(v, a);
}

/// The oldest leaves first: what leaves came before everything that stays.
pub proof fn law_oldest_leaves_first(v: InventoryView, s: ServiceView)
    requires
        inventory_wf(v),
        !v.rows.contains_key(s.key),
        v.order.len() == v.capacity,
    ensures
        !upserted(v, s).rows.contains_key(v.order[0]),
        upserted(v, s).order == v.order.drop_first().push(s.key),
{
    let order = v.order.push(s.key);
    assert(order.drop_first() =~= v.order.drop_first().push(s.key));
    assert(order[0] == v.order[0]);
}

/// Nothing that is to be dropped survives a look at the inventory, and nothing
/// else is dropped.
pub proof fn law_look_drops_exactly_the_expired(v: InventoryView, now: u64, k: Seq<char>)
    ensures
        purged(v, now).rows.contains_key(k) <==> v.rows.contains_key(k) && !expired(
            v.rows[k],
            now,
        ),
        purged(v, now).rows.contains_key(k) ==> purged(v, now).rows[k] == v.rows[k],
{
}

/// The domain of a service is what the observing node says, whatever the
/// service itself advertises.
pub proof fn law_domain_is_never_read_off_the_wire(
    a: RawView,
    b: RawView,
    configured: Option<Seq<char>>,
    expires_at: u64,
    domain: Option<Seq<char>>,
    seen: i64,
    x: ServiceView,
    y: ServiceView,
)
    requires
        held_as(a, configured, expires_at, domain, seen, x),
        held_as(b, configured, expires_at, domain, seen, y),
    ensures
        x.domain == domain,
        y.domain == domain,
{
}

/// IPv6 comes first: an IPv4 endpoint never stands before an IPv6 one, and the
/// cut never takes an IPv6 endpoint for an IPv4 one.
pub proof fn law_ipv6_comes_first(addrs: Seq<Address>, port: u16, i: int, j: int)
    requires
        0 <= i < j < ordered_endpoints(addrs, port).len(),
        ordered_endpoints(addrs, port)[j].family == AddressFamily::Ipv6,
    ensures
        ordered_endpoints(addrs, port)[i].family == AddressFamily::Ipv6,
{
    lemma_family(addrs, port, true);
    lemma_family(addrs, port, false);
}

/// The endpoints of a family are of that family.
proof fn lemma_family(addrs: Seq<Address>, port: u16, v6: bool)
    ensures
        forall|i: int|
            0 <= i < family_endpoints(addrs, port, v6).len() ==> (#[trigger] family_endpoints(
                addrs,
                port,
                v6,
            )[i]).family == (if v6 {
                AddressFamily::Ipv6
            } else {
                AddressFamily::Ipv4Legacy
            }),
    decreases addrs.len(),
{
    if addrs.len() > 0 {
        lemma_family(addrs.drop_last(), port, v6);
    }
}

/// A text that was cut takes no more bytes than it may.
pub proof fn law_cut_text_fits(s: Seq<char>, max: nat)
    ensures
        byte_len(truncated(s, max)) <= max,
        truncated(s, max).is_prefix_of(s),
        byte_len(s) <= max ==> truncated(s, max) == s,
{
    lemma_cut(s, max, s.len());
    let n = fitting(s, max, s.len());
    assert(truncated(s, max) =~= s.subrange(0, n as int));
    if byte_len(s) <= max {
        assert(s.take(s.len() as int) =~= s);
    }
}

proof fn lemma_cut(s: Seq<char>, max: nat, n: nat)
    requires
        n <= s.len(),
    ensures
        fitting(s, max, n) <= n,
        byte_len(s.take(fitting(s, max, n) as int)) <= max,
    decreases n,
{
    if n > 0 && byte_len(s.take(n as int)) > max {
        lemma_cut(s, max, (n - 1) as nat);
    }
}

/// The shares of the receivers together are no more than a scan may collect,
/// unless there are more receivers than events.
pub proof fn law_shares_add_up(max_events: nat, receivers: nat)
    requires
        0 < receivers <= max_events,
    ensures
        share_of(max_events, receivers) * receivers <= max_events,
        share_of(max_events, receivers) >= 1,
{
    assert((max_events / receivers) * receivers <= max_events && max_events / receivers >= 1)
        by (nonlinear_arith)
        requires
            0 < receivers <= max_events,
    ;
}

/// No type is looked for twice.
pub proof fn law_scan_types_are_distinct(types: Seq<Seq<char>>, extra: Seq<Seq<char>>)
    requires
        forall|i: int, j: int|
            0 <= i < j < types.len() ==> !same_type(#[trigger] types[i], #[trigger] types[j]),
    ensures
        forall|i: int, j: int|
            0 <= i < j < with_types(types, extra).len() ==> !same_type(
                #[trigger] with_types(types, extra)[i],
                #[trigger] with_types(types, extra)[j],
            ),
    decreases extra.len(),
{
    if extra.len() > 0 {
        law_scan_types_are_distinct(types, extra.drop_last());
        let before = with_types(types, extra.drop_last());
        let ty = extra.last();
        if !has_type(before, ty) {
            let after = before.push(ty);
            assert forall|i: int, j: int| 0 <= i < j < after.len() implies !same_type(
                #[trigger] after[i],
                #[trigger] after[j],
            ) by {
                assert(after[i] == before[i]);
                if j < before.len() {
                    assert(after[j] == before[j]);
                }
            }
        }
    }
}

/// The types of Cast receivers and of NDI sources differ.
proof fn lemma_known_types_differ()
    ensures
        !same_type(CAST_SERVICE_TYPE@, NDI_SERVICE_TYPE@),
{
    reveal_strlit("_googlecast._tcp.local.");
    reveal_strlit("_ndi._tcp.local.");
    reveal_strlit(".local");
    reveal_with_fuel(crate::text::trim_end_of, 3);
    let a = CAST_SERVICE_TYPE@;
    let b = NDI_SERVICE_TYPE@;
    let ta = crate::text::trim_end_of(a, CharClass::Only('.'));
    let tb = crate::text::trim_end_of(b, CharClass::Only('.'));
    assert(a.drop_last().last() == 'l');
    assert(b.drop_last().last() == 'l');
    assert(ta =~= a.take(22));
    assert(tb =~= b.take(15));
    assert(ta.skip(16) =~= ".local"@);
    assert(tb.skip(9) =~= ".local"@);
    assert(".local"@.is_suffix_of(ta));
    assert(".local"@.is_suffix_of(tb));
    assert(ta.take(16).last() == 'p');
    assert(tb.take(9).last() == 'p');
    assert(plain_type(a).len() == 16);
    assert(plain_type(b).len() == 9);
}

/// The `j`th of some types is none of the usual ones and is not among those
/// before it.
pub open spec fn first_of_its_type(
    usual: Seq<Seq<char>>,
    extra: Seq<Seq<char>>,
    j: int,
) -> bool {
    &&& !has_type(usual, extra[j])
    &&& forall|i: int| 0 <= i < j ==> !same_type(#[trigger] extra[i], extra[j])
}

/// The types that are none of the usual ones, each where it comes first.
pub open spec fn new_types(usual: Seq<Seq<char>>, extra: Seq<Seq<char>>) -> Seq<Seq<char>>
    decreases extra.len(),
{
    if extra.len() == 0 {
        Seq::empty()
    } else {
        let init = new_types(usual, extra.drop_last());
        if first_of_its_type(usual, extra, extra.len() - 1) {
            init.push(extra.last())
        } else {
            init
        }
    }
}

/// A type is among the usual ones and the new ones exactly where it is a usual
/// one or one of the extra ones.
proof fn lemma_types_covered(usual: Seq<Seq<char>>, extra: Seq<Seq<char>>, ty: Seq<char>)
    ensures
        has_type(usual + new_types(usual, extra), ty) <==> has_type(usual, ty) || has_type(
            extra,
            ty,
        ),
    decreases extra.len(),
{
    let all = usual + new_types(usual, extra);
    if extra.len() == 0 {
        assert(all =~= usual);
    } else {
        let fore = extra.drop_last();
        let last = extra.last();
        let before = usual + new_types(usual, fore);
        lemma_types_covered(usual, fore, ty);
        lemma_types_covered(usual, fore, last);
        assert(has_type(fore, last) ==> !first_of_its_type(usual, extra, extra.len() - 1)) by {
            if has_type(fore, last) {
                let i = choose|i: int| 0 <= i < fore.len() && same_type(#[trigger] fore[i], last);
                assert(extra[i] == fore[i]);
            }
        }
        assert(!has_type(usual, last) && !has_type(fore, last) ==> first_of_its_type(
            usual,
            extra,
            extra.len() - 1,
        )) by {
            if !has_type(usual, last) && !has_type(fore, last) {
                assert forall|i: int| 0 <= i < extra.len() - 1 implies !same_type(
                    #[trigger] extra[i],
                    extra[extra.len() - 1],
                ) by {
                    assert(fore[i] == extra[i]);
                }
            }
        }
        if has_type(fore, ty) {
            let i = choose|i: int| 0 <= i < fore.len() && same_type(#[trigger] fore[i], ty);
            assert(extra[i] == fore[i]);
            assert(has_type(extra, ty));
        }
        if same_type(last, ty) {
            assert(extra[extra.len() - 1] == last);
            assert(has_type(extra, ty));
        }
        if has_type(extra, ty) {
            let i = choose|i: int| 0 <= i < extra.len() && same_type(#[trigger] extra[i], ty);
            if i < fore.len() {
                assert(fore[i] == extra[i]);
                assert(has_type(fore, ty));
            }
        }
        if has_type(before, ty) {
            let i = choose|i: int| 0 <= i < before.len() && same_type(#[trigger] before[i], ty);
            assert(all[i] == before[i]);
            assert(has_type(all, ty));
        }
        if has_type(before, last) && same_type(last, ty) {
            let i = choose|i: int| 0 <= i < before.len() && same_type(#[trigger] before[i], last);
            assert(all[i] == before[i]);
            assert(has_type(all, ty));
        }
        if first_of_its_type(usual, extra, extra.len() - 1) {
            assert(all =~= before.push(last));
            if same_type(last, ty) {
                assert(all[before.len() as int] == last);
                assert(has_type(all, ty));
            }
            if has_type(all, ty) {
                let i = choose|i: int| 0 <= i < all.len() && same_type(#[trigger] all[i], ty);
                if i < before.len() {
                    assert(before[i] == all[i]);
                    assert(has_type(before, ty));
                }
            }
        } else {
            assert(all =~= before);
        }
    }
}

/// What a scan looks for: first the usual types, then the extra ones that are
/// not among them, each once, as it is written and where it comes first.
proof fn lemma_scan_types(usual: Seq<Seq<char>>, extra: Seq<Seq<char>>)
    ensures
        with_types(usual, extra) == usual + new_types(usual, extra),
    decreases extra.len(),
{
    if extra.len() == 0 {
        assert(usual + new_types(usual, extra) =~= usual);
    } else {
        let fore = extra.drop_last();
        let last = extra.last();
        lemma_scan_types(usual, fore);
        lemma_types_covered(usual, fore, last);
        let before = usual + new_types(usual, fore);
        if has_type(before, last) {
            if has_type(fore, last) {
                let i = choose|i: int| 0 <= i < fore.len() && same_type(#[trigger] fore[i], last);
                assert(extra[i] == fore[i]);
            }
            assert(!first_of_its_type(usual, extra, extra.len() - 1));
        } else {
            assert forall|i: int| 0 <= i < extra.len() - 1 implies !same_type(
                #[trigger] extra[i],
                extra[extra.len() - 1],
            ) by {
                assert(fore[i] == extra[i]);
            }
            assert(first_of_its_type(usual, extra, extra.len() - 1));
            assert(usual + new_types(usual, extra) =~= before.push(last));
        }
    }
}

/// A new type is one of the extra ones.
proof fn lemma_new_type_is_extra(usual: Seq<Seq<char>>, extra: Seq<Seq<char>>, k: int) -> (j: int)
    requires
        0 <= k < new_types(usual, extra).len(),
    ensures
        0 <= j < extra.len(),
        new_types(usual, extra)[k] == extra[j],
    decreases extra.len(),
{
    let init = new_types(usual, extra.drop_last());
    if k < init.len() {
        let j = lemma_new_type_is_extra(usual, extra.drop_last(), k);
        assert(extra.drop_last()[j] == extra[j]);
        j
    } else {
        extra.len() - 1
    }
}

/// A scan looks for the usual types first and then for the extra ones that are
/// not among them: each as it is written, in the order of the extra ones, where
/// it comes first. It looks for every extra type, and for no type twice.
pub proof fn law_scan_looks_for_every_type(
    configured: Option<Seq<char>>,
    extra: Seq<Seq<char>>,
)
    ensures
        ({
            let usual = usual_types(configured);
            let all = with_types(usual, extra);
            &&& all == usual + new_types(usual, extra)
            &&& usual.is_prefix_of(all)
            &&& forall|k: int|
                usual.len() <= k < all.len() ==> extra.contains(#[trigger] all[k])
            &&& forall|j: int| 0 <= j < extra.len() ==> has_type(all, #[trigger] extra[j])
            &&& forall|i: int, j: int|
                0 <= i < j < all.len() ==> !same_type(#[trigger] all[i], #[trigger] all[j])
        }),
{
    let usual = usual_types(configured);
    let all = with_types(usual, extra);
    lemma_scan_types(usual, extra);
    assert(all.take(usual.len() as int) =~= usual);
    assert forall|k: int| usual.len() <= k < all.len() implies extra.contains(
        #[trigger] all[k],
    ) by {
        let j = lemma_new_type_is_extra(usual, extra, k - usual.len());
        assert(extra[j] == all[k]);
    }
    assert forall|j: int| 0 <= j < extra.len() implies has_type(all, #[trigger] extra[j]) by {
        lemma_types_covered(usual, extra, extra[j]);
        assert(has_type(extra, extra[j]));
    }
    lemma_known_types_differ();
    let two = seq![CAST_SERVICE_TYPE@, NDI_SERVICE_TYPE@];
    assert forall|i: int, j: int| 0 <= i < j < two.len() implies !same_type(
        #[trigger] two[i],
        #[trigger] two[j],
    ) by {
        assert(i == 0 && j == 1);
    }
    if configured is Some {
        let one = seq![configured->0];
        law_scan_types_are_distinct(two, one);
        assert(one.drop_last() =~= Seq::<Seq<char>>::empty());
        assert(with_types(two, one.drop_last()) == two);
        assert(with_types(two, one) == usual);
    }
    law_scan_types_are_distinct(usual, extra);
}

/// Scans run one at a time: while one runs, asking for another joins it, and
/// only its own end makes room for the next.
pub proof fn law_one_scan_at_a_time(first: Seq<char>, second: Seq<char>)
    ensures
        scan_after_asking(Some(first), second) == Some(first),
        first != second ==> scan_after_ending(Some(first), second) == Some(first),
        scan_after_ending(Some(first), first) is None,
        scan_after_asking(scan_after_ending(Some(first), first), second) == Some(second),
{
}

/// An endpoint's address can be read back, for either family: what follows its last
/// colon is the port in decimal, and what stands before it is the host, which
/// brackets enclose where the address is an IPv6 one.
pub proof fn law_endpoint_reads_back(a: Address, port: u16)
    ensures
        ({
            let e = endpoint_at(a, port);
            let colon = crate::text::last_index(e.address, ':');
            &&& colon is Some
            &&& e.address.skip(colon->0 + 1) == crate::text::decimal(port as nat)
            &&& crate::text::digits_value(e.address.skip(colon->0 + 1)) == port
            &&& !a.v6 ==> e.address.take(colon->0) == a.text@
            &&& a.v6 ==> e.address[0] == '[' && e.address[colon->0 - 1] == ']'
                && e.address.subrange(1, colon->0 - 1) == a.text@
            &&& (e.family == AddressFamily::Ipv6) == a.v6
        }),
{
    reveal_strlit("[");
    reveal_strlit("]:");
    reveal_strlit(":");
    crate::text::lemma_decimal(port as nat);
    let digits = crate::text::decimal(port as nat);
    let e = endpoint_at(a, port);
    let front = (e.address.len() - digits.len() - 1) as int;
    assert(e.address[front] == ':');
    assert forall|j: int| front < j < e.address.len() implies e.address[j] != ':' by {
        assert(e.address[j] == digits[j - front - 1]);
        assert(crate::text::is_digit(digits[j - front - 1]));
    }
    crate::text::lemma_last_index(e.address, ':');
    let at = crate::text::last_index(e.address, ':')->0;
    assert(at == front);
    assert(e.address.skip(front + 1) =~= digits);
    if a.v6 {
        assert(e.address.subrange(1, front - 1) =~= a.text@);
    } else {
        assert(e.address.take(front) =~= a.text@);
    }
}

/// Two endpoints are the same only where family, host and port are: one host at two
/// ports, and two hosts at one port, have different addresses.
pub proof fn law_endpoints_tell_host_and_port_apart(a: Address, p: u16, b: Address, q: u16)
    requires
        endpoint_at(a, p) == endpoint_at(b, q),
    ensures
        p == q,
        a.v6 == b.v6,
        a.text@ == b.text@,
{
    law_endpoint_reads_back(a, p);
    law_endpoint_reads_back(b, q);
}

/// Every address that was announced becomes an endpoint, at the announced port, and
/// nothing else does.
pub proof fn law_every_address_is_an_endpoint(addrs: Seq<Address>, port: u16, i: int)
    ensures
        ordered_endpoints(addrs, port).len() == addrs.len(),
        0 <= i < addrs.len() ==> ordered_endpoints(addrs, port).contains(
            endpoint_at(addrs[i], port),
        ),
{
    lemma_families_share(addrs, port);
    if 0 <= i < addrs.len() {
        let a = addrs[i];
        lemma_address_listed(addrs, port, i);
        let six = family_endpoints(addrs, port, true);
        let four = family_endpoints(addrs, port, false);
        let own = family_endpoints(addrs, port, a.v6);
        let k = choose|k: int| 0 <= k < own.len() && own[k] == endpoint_at(a, port);
        if a.v6 {
            assert((six + four)[k] == endpoint_at(a, port));
        } else {
            assert((six + four)[six.len() + k] == endpoint_at(a, port));
        }
    }
}

/// The two families share the addresses.
proof fn lemma_families_share(addrs: Seq<Address>, port: u16)
    ensures
        family_endpoints(addrs, port, true).len() + family_endpoints(addrs, port, false).len()
            == addrs.len(),
    decreases addrs.len(),
{
    if addrs.len() > 0 {
        lemma_families_share(addrs.drop_last(), port);
    }
}

/// An address is listed with its family.
proof fn lemma_address_listed(addrs: Seq<Address>, port: u16, i: int)
    requires
        0 <= i < addrs.len(),
    ensures
        exists|k: int|
            0 <= k < family_endpoints(addrs, port, addrs[i].v6).len() && #[trigger] family_endpoints(
                addrs,
                port,
                addrs[i].v6,
            )[k] == endpoint_at(addrs[i], port),
    decreases addrs.len(),
{
    let own = family_endpoints(addrs, port, addrs[i].v6);
    let init = family_endpoints(addrs.drop_last(), port, addrs[i].v6);
    if i == addrs.len() - 1 {
        assert(own[init.len() as int] == endpoint_at(addrs[i], port));
    } else {
        lemma_address_listed(addrs.drop_last(), port, i);
        let k = choose|k: int| 0 <= k < init.len() && init[k] == endpoint_at(addrs[i], port);
        assert(own[k] == endpoint_at(addrs[i], port));
    }
}

/// A service type is the same with or without the link-local domain and trailing
/// dots behind it.
pub proof fn law_type_may_end_in_the_local_domain(ty: Seq<char>)
    requires
        ty.len() > 0,
        ty.last() != '.',
        !".local"@.is_suffix_of(ty),
    ensures
        plain_type(ty) == ty,
        plain_type(ty + "."@) == ty,
        plain_type(ty + ".local"@) == ty,
        plain_type(ty + ".local."@) == ty,
{
    reveal_strlit(".");
    reveal_strlit(".local");
    reveal_strlit(".local.");
    let dot = CharClass::Only('.');
    let a = ty + "."@;
    assert(a.last() == '.');
    assert(a.drop_last() =~= ty);
    assert(crate::text::trim_end_of(ty, dot) == ty);
    assert(crate::text::trim_end_of(a, dot) == crate::text::trim_end_of(a.drop_last(), dot));
    let b = ty + ".local"@;
    assert(b.last() == 'l');
    assert(crate::text::trim_end_of(b, dot) == b);
    assert(b.subrange(b.len() - 6, b.len() as int) =~= ".local"@);
    assert(".local"@.is_suffix_of(b));
    assert(b.take(b.len() - 6) =~= ty);
    let c = ty + ".local."@;
    assert(c.last() == '.');
    assert(c.drop_last() =~= b);
    assert(crate::text::trim_end_of(c, dot) == crate::text::trim_end_of(c.drop_last(), dot));
}

/// What a service is driven by follows from its type: cast receivers and NDI sources
/// announce well-known types, whatever is configured; the configured type is a
/// Zowietek box; every other type is unknown.
pub proof fn law_type_tells_the_driver(ty: Seq<char>, configured: Option<Seq<char>>)
    ensures
        plain_type(ty) == "_googlecast._tcp"@ ==> kind_of(ty, configured)
            == DiscoveryDriverKind::Cast,
        plain_type(ty) == "_ndi._tcp"@ ==> kind_of(ty, configured)
            == DiscoveryDriverKind::NdiSource,
        plain_type(ty) != "_googlecast._tcp"@ && plain_type(ty) != "_ndi._tcp"@ ==> (
        kind_of(ty, configured) == DiscoveryDriverKind::ZowietekControl <==> configured is Some
            && plain_type(configured->0) == plain_type(ty)),
        plain_type(ty) != "_googlecast._tcp"@ && plain_type(ty) != "_ndi._tcp"@ ==> (
        kind_of(ty, configured) == DiscoveryDriverKind::Unknown <==> configured is None
            || plain_type(configured->0) != plain_type(ty)),
{
    reveal_strlit("_googlecast._tcp");
    reveal_strlit("_ndi._tcp");
    lemma_known_types();
    assert("_googlecast._tcp"@.len() != "_ndi._tcp"@.len());
}

/// A key stands for one service: kind, name and type can be told from it, where a
/// name holds no bar.
pub proof fn law_key_stands_for_one_service(
    k: DiscoveryDriverKind,
    m: Seq<char>,
    t: Seq<char>,
    l: DiscoveryDriverKind,
    n: Seq<char>,
    u: Seq<char>,
)
    requires
        !m.contains('|'),
        !n.contains('|'),
        key_of(k, m, t) == key_of(l, n, u),
    ensures
        k == l,
        m == n,
        t == u,
{
    reveal_strlit("|");
    lemma_kind_names(k);
    lemma_kind_names(l);
    let a = kind_name(k);
    let b = kind_name(l);
    let x = key_of(k, m, t);
    let y = key_of(l, n, u);
    assert(x[a.len() as int] == '|');
    assert(y[b.len() as int] == '|');
    if a.len() < b.len() {
        assert(y[a.len() as int] == b[a.len() as int]);
        assert(b.contains('|'));
    }
    if b.len() < a.len() {
        assert(x[b.len() as int] == a[b.len() as int]);
        assert(a.contains('|'));
    }
    assert(x.take(a.len() as int) =~= a);
    assert(y.take(b.len() as int) =~= b);
    let i = (a.len() + 1 + m.len()) as int;
    let j = (b.len() + 1 + n.len()) as int;
    assert(x[i] == '|');
    assert(y[j] == '|');
    if i < j {
        assert(y[i] == n[i - b.len() - 1]);
    }
    if j < i {
        assert(x[j] == m[j - a.len() - 1]);
    }
    assert(x.subrange((a.len() + 1) as int, i) =~= m);
    assert(y.subrange((b.len() + 1) as int, j) =~= n);
    assert(x.skip(i + 1) =~= t);
    assert(y.skip(j + 1) =~= u);
}

/// The names of the kinds differ from one another and hold no bar.
proof fn lemma_kind_names(k: DiscoveryDriverKind)
    ensures
        !kind_name(k).contains('|'),
        forall|l: DiscoveryDriverKind| #[trigger] kind_name(l) == kind_name(k) ==> l == k,
{
    reveal_strlit("cast");
    reveal_strlit("ndi-source");
    reveal_strlit("zowietek-control");
    reveal_strlit("unknown");
    assert("cast"@.len() == 4 && "ndi-source"@.len() == 10 && "zowietek-control"@.len() == 16
        && "unknown"@.len() == 7);
}

/// What is held of a service is what it announced: its texts as far as they fit 256
/// bytes, its port, an endpoint for each address up to sixteen, and a record for each
/// of its records up to sixty-four.
pub proof fn law_held_service_is_what_was_announced(
    raw: RawView,
    configured: Option<Seq<char>>,
    expires_at: u64,
    domain: Option<Seq<char>>,
    seen: i64,
    s: ServiceView,
    i: int,
)
    requires
        held_as(raw, configured, expires_at, domain, seen, s),
    ensures
        s.name.is_prefix_of(raw.instance_name@) && byte_len(s.name) <= 256,
        byte_len(raw.instance_name@) <= 256 ==> s.name == raw.instance_name@,
        s.host.is_prefix_of(raw.host@) && byte_len(s.host) <= 256,
        byte_len(raw.host@) <= 256 ==> s.host == raw.host@,
        s.service_type.is_prefix_of(raw.service_type@) && byte_len(s.service_type) <= 256,
        byte_len(raw.service_type@) <= 256 ==> s.service_type == raw.service_type@,
        s.port == raw.port,
        s.endpoints.len() == (if raw.addresses.len() <= 16 {
            raw.addresses.len()
        } else {
            16
        }),
        raw.addresses.len() <= 16 && 0 <= i < raw.addresses.len() ==> s.endpoints.contains(
            endpoint_at(raw.addresses[i], raw.port),
        ),
        raw.addresses.len() > 0 ==> s.primary_address == s.endpoints[0].address,
        raw.addresses.len() == 0 ==> s.primary_address == s.host,
        s.txt.len() == (if raw.txt.len() <= 64 {
            raw.txt.len()
        } else {
            64
        }),
        0 <= i < s.txt.len() && byte_len(raw.txt[i].0@) <= 256 && byte_len(raw.txt[i].1@) <= 512
            ==> s.txt.contains((raw.txt[i].0@, raw.txt[i].1@)),
        s.last_seen_unix_ns == seen,
        expired(s, expires_at),
        expires_at > 0 ==> !expired(s, (expires_at - 1) as u64),
{
    law_cut_text_fits(raw.instance_name@, 256);
    law_cut_text_fits(raw.host@, 256);
    law_cut_text_fits(raw.service_type@, 256);
    law_every_address_is_an_endpoint(raw.addresses, raw.port, i);
    let kept = kept_records(raw.txt);
    s.txt.to_multiset_ensures();
    kept.to_multiset_ensures();
    assert(s.txt.len() == s.txt.to_multiset().len());
    if 0 <= i < s.txt.len() && byte_len(raw.txt[i].0@) <= 256 && byte_len(raw.txt[i].1@) <= 512 {
        law_cut_text_fits(raw.txt[i].0@, 256);
        law_cut_text_fits(raw.txt[i].1@, 512);
        assert(kept[i] == (raw.txt[i].0@, raw.txt[i].1@));
        assert(kept.contains(kept[i]));
        assert(kept.to_multiset().count(kept[i]) > 0);
        assert(s.txt.to_multiset().count(kept[i]) > 0);
    }
}

/// The label of a full name is what stands before its first dot.
pub proof fn law_label_is_before_the_first_dot(label: Seq<char>, rest: Seq<char>)
    requires
        !label.contains('.'),
    ensures
        label_of(label + "."@ + rest) == label,
        label_of(label) == label,
{
    reveal_strlit(".");
    let full = label + "."@ + rest;
    crate::text::lemma_first_index(full, '.');
    crate::text::lemma_first_index(label, '.');
    assert(full[label.len() as int] == '.');
    let i = crate::text::first_index(full, '.')->0;
    if i < label.len() {
        assert(full[i] == label[i]);
    }
    assert(full.take(label.len() as int) =~= label);
}

/// A scan hands out every service of a type that was asked for, and no other.
pub proof fn law_scan_hands_out_what_was_asked_for(
    services: Seq<RawView>,
    types: Seq<Seq<char>>,
    s: RawView,
)
    ensures
        of_types(services, types).contains(s) <==> services.contains(s) && (exists|i: int|
            0 <= i < types.len() && plain_type(#[trigger] types[i]) == plain_type(
                s.service_type@,
            )),
    decreases services.len(),
{
    if services.len() > 0 {
        let init = services.drop_last();
        let picked = of_types(init, types);
        law_scan_hands_out_what_was_asked_for(init, types, s);
        assert(services =~= init.push(services.last()));
        if init.contains(s) {
            let k = choose|k: int| 0 <= k < init.len() && init[k] == s;
            assert(services[k] == s);
        }
        if has_type(types, services.last().service_type@) {
            assert(of_types(services, types)[picked.len() as int] == services.last());
            if picked.contains(s) {
                let k = choose|k: int| 0 <= k < picked.len() && picked[k] == s;
                assert(of_types(services, types)[k] == s);
            }
        }
        if has_type(types, s.service_type@) {
            let i = choose|i: int| 0 <= i < types.len() && same_type(
                #[trigger] types[i],
                s.service_type@,
            );
            assert(plain_type(types[i]) == plain_type(s.service_type@));
        }
        if exists|i: int|
            0 <= i < types.len() && plain_type(#[trigger] types[i]) == plain_type(s.service_type@) {
            let i = choose|i: int|
                0 <= i < types.len() && plain_type(#[trigger] types[i]) == plain_type(
                    s.service_type@,
                );
            assert(same_type(types[i], s.service_type@));
        }
    }
}

/// What was collected is the front of what came in, and all of it where it fits.
pub proof fn law_collected_is_the_front<E>(batches: Seq<Vec<E>>, max_events: nat)
    ensures
        at_most(joined(batches), max_events).is_prefix_of(joined(batches)),
        at_most(joined(batches), max_events).len() == (if joined(batches).len() <= max_events {
            joined(batches).len()
        } else {
            max_events
        }),
        batches.len() == 1 ==> joined(batches) == batches[0]@,
        batches.len() == 2 ==> joined(batches) == batches[0]@ + batches[1]@,
{
    reveal_with_fuel(joined, 3);
    if batches.len() == 1 {
        assert(joined(batches) =~= batches[0]@);
    }
    if batches.len() == 2 {
        assert(batches.drop_last().last() == batches[0]);
        assert(joined(batches) =~= batches[0]@ + batches[1]@);
    }
}

/// A scan that ends makes room for the next; one that ended before does not end the
/// one that runs.
pub proof fn law_ended_scan_makes_room(op: Seq<char>, other: Seq<char>)
    ensures
        scan_after_asking(None, op) == Some(op),
        scan_after_ending(Some(op), op) is None,
        other != op ==> scan_after_ending(Some(op), other) == Some(op),
        scan_after_asking(scan_after_ending(Some(op), op), other) == Some(other),
{
}

/// A text is cut no shorter than it must be: with one more character it would not fit.
pub proof fn law_cut_is_no_shorter_than_needed(s: Seq<char>, max: nat)
    ensures
        truncated(s, max).len() < s.len() ==> byte_len(
            s.take((truncated(s, max).len() + 1) as int),
        ) > max,
{
    lemma_fitting_is_longest(s, max, s.len());
}

/// The fitting length is the longest that fits.
proof fn lemma_fitting_is_longest(s: Seq<char>, max: nat, n: nat)
    requires
        n <= s.len(),
    ensures
        fitting(s, max, n) <= n,
        fitting(s, max, n) < n ==> byte_len(s.take((fitting(s, max, n) + 1) as int)) > max,
    decreases n,
{
    if !(n == 0 || byte_len(s.take(n as int)) <= max) {
        lemma_fitting_is_longest(s, max, (n - 1) as nat);
    }
}

/// A text takes as many bytes as its characters do: one for each of plain text, and up
/// to four for the others.
pub proof fn law_bytes_of_characters(s: Seq<char>, c: char)
    ensures
        byte_len(Seq::empty()) == 0,
        byte_len(s.push(c)) == byte_len(s) + char_len(c),
        c <= '~' ==> char_len(c) == 1,
        c == '\u{e9}' ==> char_len(c) == 2,
        c == '\u{20ac}' ==> char_len(c) == 3,
        c == '\u{1f600}' ==> char_len(c) == 4,
        1 <= char_len(c) <= 4,
{
    assert(s.push(c).drop_last() =~= s);
}

/// A share is as large as the budget allows for every receiver, and one at least.
pub proof fn law_share_is_the_largest(max_events: nat, receivers: nat)
    requires
        receivers > 0,
    ensures
        share_of(max_events, receivers) >= 1,
        max_events >= receivers ==> share_of(max_events, receivers) * receivers <= max_events < (
        share_of(max_events, receivers) + 1) * receivers,
        max_events < receivers ==> share_of(max_events, receivers) == 1,
        share_of(max_events, 0) == 0,
{
    let q = max_events / receivers;
    vstd::arithmetic::div_mod::lemma_fundamental_div_mod(max_events as int, receivers as int);
    assert(max_events as int == receivers as int * (max_events as int / receivers as int)
        + max_events as int % receivers as int);
    assert(0 <= max_events as int % receivers as int) by (nonlinear_arith)
        requires
            receivers > 0,
    ;
    assert((max_events as int % receivers as int) < receivers) by (nonlinear_arith)
        requires
            receivers > 0,
    ;
    assert(q * receivers == receivers as int * q as int) by (nonlinear_arith);
    assert((q + 1) * receivers == q * receivers + receivers) by (nonlinear_arith);
    if max_events >= receivers {
        assert(q >= 1) by (nonlinear_arith)
            requires
                max_events < (q + 1) * receivers,
                max_events >= receivers,
                receivers > 0,
        ;
    } else {
        assert(q == 0) by (nonlinear_arith)
            requires
                q * receivers <= max_events,
                max_events < receivers,
                receivers > 0,
        ;
    }
}

/// The kinds of service go by their names.
pub proof fn law_kinds_are_named(k: DiscoveryDriverKind)
    ensures
        k == DiscoveryDriverKind::Cast ==> kind_name(k) == "cast"@,
        k == DiscoveryDriverKind::NdiSource ==> kind_name(k) == "ndi-source"@,
        k == DiscoveryDriverKind::ZowietekControl ==> kind_name(k) == "zowietek-control"@,
        k == DiscoveryDriverKind::Unknown ==> kind_name(k) == "unknown"@,
{
}

/// A scan looks for cast receivers and NDI sources always, and for the configured
/// type, once.
pub proof fn law_usual_types(z: Seq<char>)
    ensures
        usual_types(None) == seq!["_googlecast._tcp.local."@, "_ndi._tcp.local."@],
        plain_type(z) != "_googlecast._tcp"@ && plain_type(z) != "_ndi._tcp"@ ==> usual_types(
            Some(z),
        ) == seq!["_googlecast._tcp.local."@, "_ndi._tcp.local."@, z],
        plain_type(z) == "_googlecast._tcp"@ || plain_type(z) == "_ndi._tcp"@ ==> usual_types(
            Some(z),
        ) == seq!["_googlecast._tcp.local."@, "_ndi._tcp.local."@],
{
    let two = seq!["_googlecast._tcp.local."@, "_ndi._tcp.local."@];
    lemma_known_types();
    assert(two[0] == "_googlecast._tcp.local."@ && two[1] == "_ndi._tcp.local."@);
    assert(has_type(two, z) <==> plain_type(z) == "_googlecast._tcp"@ || plain_type(z)
        == "_ndi._tcp"@) by {
        assert(same_type(two[0], z) == (plain_type(z) == "_googlecast._tcp"@));
        assert(same_type(two[1], z) == (plain_type(z) == "_ndi._tcp"@));
        if has_type(two, z) {
            let i = choose|i: int| 0 <= i < two.len() && same_type(#[trigger] two[i], z);
            assert(i == 0 || i == 1);
        }
    }
    assert(two.push(z) =~= seq!["_googlecast._tcp.local."@, "_ndi._tcp.local."@, z]);
}

/// The two well-known types without the local domain.
proof fn lemma_known_types()
    ensures
        plain_type("_googlecast._tcp.local."@) == "_googlecast._tcp"@,
        plain_type("_ndi._tcp.local."@) == "_ndi._tcp"@,
{
    reveal_strlit(".local");
    reveal_strlit(".local.");
    reveal_strlit("_googlecast._tcp");
    reveal_strlit("_googlecast._tcp.local.");
    reveal_strlit("_ndi._tcp");
    reveal_strlit("_ndi._tcp.local.");
    let c = "_googlecast._tcp"@;
    assert(!".local"@.is_suffix_of(c)) by {
        assert(".local"@[0] == '.');
        assert(c[10] != '.');
    }
    law_type_may_end_in_the_local_domain(c);
    assert(c + ".local."@ =~= "_googlecast._tcp.local."@);
    let n = "_ndi._tcp"@;
    assert(!".local"@.is_suffix_of(n)) by {
        assert(".local"@[0] == '.');
        assert(n[3] != '.');
    }
    law_type_may_end_in_the_local_domain(n);
    assert(n + ".local."@ =~= "_ndi._tcp.local."@);
}

} // verus!
