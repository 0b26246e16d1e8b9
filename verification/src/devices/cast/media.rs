//! Media addresses that a Cast receiver can reach, and what it can show.
//!
//! Receivers resolve names through public resolvers of their own. A base
//! therefore names an IP literal that is no loopback, or a name with a dot
//! that is not a local one.

use vstd::prelude::*;

use crate::net_literal::{parse_ipv4, parse_ipv6};
use crate::table::Table;
use crate::text::{
    ascii_lowercase, cat3, debug_text, find_char, parse_unsigned, rfind_char, split_once, str_eq,
    strip_prefix, strip_suffix, trim, CharClass,
};

verus! {

/// The port on which receivers listen, unless told otherwise.
pub const DEFAULT_CAST_PORT: u16 = 8009;

/// Why a base was refused.
#[derive(Debug, PartialEq, Eq)]
pub enum CastMediaError {
    /// It is no `http` or `https` address.
    NotHttp {
        /// The base.
        base: String,
    },
    /// Its host is a loopback.
    Loopback {
        /// The base.
        base: String,
    },
    /// A receiver cannot resolve its host.
    UnresolvableHost {
        /// The host.
        host: String,
    },
    /// It has a path or a query.
    HasPath {
        /// The base.
        base: String,
    },
    /// It has no host.
    EmptyHost {
        /// The base.
        base: String,
    },
}

/// Why a base was refused, its text as a sequence.
pub enum MediaErrorView {
    /// It is no `http` or `https` address.
    NotHttp(Seq<char>),
    /// Its host is a loopback.
    Loopback(Seq<char>),
    /// A receiver cannot resolve its host.
    UnresolvableHost(Seq<char>),
    /// It has a path or a query.
    HasPath(Seq<char>),
    /// It has no host.
    EmptyHost(Seq<char>),
}

impl CastMediaError {
    /// The error, its text as a sequence.
    pub open spec fn view(self) -> MediaErrorView {
        match self {
            CastMediaError::NotHttp { base } => MediaErrorView::NotHttp(base@),
            CastMediaError::Loopback { base } => MediaErrorView::Loopback(base@),
            CastMediaError::UnresolvableHost { host } => MediaErrorView::UnresolvableHost(host@),
            CastMediaError::HasPath { base } => MediaErrorView::HasPath(base@),
            CastMediaError::EmptyHost { base } => MediaErrorView::EmptyHost(base@),
        }
    }

    /// The error in words.
    pub fn message(&self) -> (r: String)
        ensures
            r@ == media_error_text(self@),
    {
        match self {
            CastMediaError::NotHttp { base } => {
                let q = debug_text(base.as_str());
                cat3("cast media base ", q.as_str(), " must be an http:// or https:// URL")
            },
            CastMediaError::Loopback { base } => {
                let q = debug_text(base.as_str());
                cat3(
                    "cast media base ",
                    q.as_str(),
                    " is a loopback — the Cast device cannot reach it; use an address of this host on a network the device can reach",
                )
            },
            CastMediaError::UnresolvableHost { host } => {
                let q = debug_text(host.as_str());
                cat3(
                    "cast media base host ",
                    q.as_str(),
                    " will not resolve on a Cast device (they ignore LAN DNS and resolve via hardcoded public resolvers): use an IP literal, or a publicly resolvable name",
                )
            },
            CastMediaError::HasPath { base } => {
                let q = debug_text(base.as_str());
                cat3(
                    "cast media base ",
                    q.as_str(),
                    " must not carry a path or query (the /hls mounts are appended automatically)",
                )
            },
            CastMediaError::EmptyHost { base } => {
                let q = debug_text(base.as_str());
                cat3("cast media base ", q.as_str(), " has no host")
            },
        }
    }
}

/// An error in words.
pub open spec fn media_error_text(e: MediaErrorView) -> Seq<char> {
    match e {
        MediaErrorView::NotHttp(base) => "cast media base "@ + crate::text::debug_of(base)
            + " must be an http:// or https:// URL"@,
        MediaErrorView::Loopback(base) => "cast media base "@ + crate::text::debug_of(base)
            + " is a loopback — the Cast device cannot reach it; use an address of this host on a network the device can reach"@,
        MediaErrorView::UnresolvableHost(host) => "cast media base host "@ + crate::text::debug_of(
            host,
        )
            + " will not resolve on a Cast device (they ignore LAN DNS and resolve via hardcoded public resolvers): use an IP literal, or a publicly resolvable name"@,
        MediaErrorView::HasPath(base) => "cast media base "@ + crate::text::debug_of(base)
            + " must not carry a path or query (the /hls mounts are appended automatically)"@,
        MediaErrorView::EmptyHost(base) => "cast media base "@ + crate::text::debug_of(base)
            + " has no host"@,
    }
}

/// The container of a rendition's segments.
#[derive(Debug, Clone, Copy, PartialEq, Eq, Structural)]
pub enum HlsSegmentFormat {
    /// MPEG transport stream.
    MpegTs,
    /// Fragmented MP4.
    Fmp4,
}

/// The wire name of a container.
pub open spec fn format_token(f: HlsSegmentFormat) -> Seq<char> {
    match f {
        HlsSegmentFormat::MpegTs => "mpeg2_ts"@,
        HlsSegmentFormat::Fmp4 => "fmp4"@,
    }
}

impl HlsSegmentFormat {
    /// The wire name.
    pub fn wire_token(self) -> (r: &'static str)
        ensures
            r@ == format_token(self),
    {
        match self {
            HlsSegmentFormat::MpegTs => "mpeg2_ts",
            HlsSegmentFormat::Fmp4 => "fmp4",
        }
    }
}

/// A rendition that can be shown.
#[derive(Debug, PartialEq, Eq)]
pub struct CastMediaTarget {
    /// The address of its playlist.
    pub url: String,
    /// The container of its segments.
    pub format: HlsSegmentFormat,
}

impl Clone for CastMediaTarget {
    fn clone(&self) -> (r: Self)
        ensures
            r == *self,
    {
        CastMediaTarget { url: self.url.clone(), format: self.format }
    }
}

// ---- Bases -------------------------------------------------------------------

/// `s` without one `p` at its end, where there is one.
pub open spec fn without_suffix(s: Seq<char>, p: Seq<char>) -> Seq<char> {
    if p.is_suffix_of(s) {
        s.take(s.len() - p.len())
    } else {
        s
    }
}

/// What follows the scheme of an `http` or `https` address.
pub open spec fn after_scheme(s: Seq<char>) -> Option<Seq<char>> {
    if "http://"@.is_prefix_of(s) {
        Some(s.skip("http://"@.len() as int))
    } else if "https://"@.is_prefix_of(s) {
        Some(s.skip("https://"@.len() as int))
    } else {
        None
    }
}

/// What stands before the first `c`; the whole where there is none.
pub open spec fn before_first(s: Seq<char>, c: char) -> Seq<char> {
    match crate::text::first_index(s, c) {
        Some(i) => s.take(i),
        None => s,
    }
}

/// What stands behind the last `c`; the whole where there is none.
pub open spec fn after_last(s: Seq<char>, c: char) -> Seq<char> {
    match crate::text::last_index(s, c) {
        Some(i) => s.skip(i + 1),
        None => s,
    }
}

/// The host of an authority, without its port and without brackets.
pub open spec fn host_of(authority: Seq<char>) -> Seq<char> {
    if authority.len() > 0 && authority[0] == '[' {
        before_first(authority.skip(1), ']')
    } else {
        before_first(authority, ':')
    }
}

/// Why a receiver cannot reach a host, where it cannot.
pub open spec fn host_refusal(host: Seq<char>, base: Seq<char>) -> Option<MediaErrorView> {
    match crate::net_literal::ipv6_groups(host) {
        Some(g) => if g == crate::net_literal::ipv6_loopback() {
            Some(MediaErrorView::Loopback(base))
        } else {
            None
        },
        None => match crate::net_literal::ipv4_octets(host) {
            Some(o) => if o[0] == 127 {
                Some(MediaErrorView::Loopback(base))
            } else {
                None
            },
            None => {
                let low = crate::text::lowered(host);
                if low == "localhost"@ || after_last(low, '.') == "local"@
                    || crate::text::first_index(low, '.') is None {
                    Some(MediaErrorView::UnresolvableHost(host))
                } else {
                    None
                }
            },
        },
    }
}

/// A base without one slash at its end, or why it was refused.
pub open spec fn base_of(base: Seq<char>) -> Result<Seq<char>, MediaErrorView> {
    let trimmed = without_suffix(base, "/"@);
    match after_scheme(trimmed) {
        None => Err(MediaErrorView::NotHttp(base)),
        Some(rest) => if crate::text::first_index(rest, '/') is Some || crate::text::first_index(
            rest,
            '?',
        ) is Some {
            Err(MediaErrorView::HasPath(base))
        } else {
            let host = host_of(rest);
            if host.len() == 0 {
                Err(MediaErrorView::EmptyHost(base))
            } else {
                match host_refusal(host, base) {
                    Some(e) => Err(e),
                    None => Ok(trimmed),
                }
            }
        },
    }
}

/// A base that a receiver can reach.
#[derive(Debug, PartialEq, Eq)]
pub struct CastMediaBase {
    text: String,
}

impl CastMediaBase {
    /// The base, without a slash at its end.
    pub closed spec fn view(self) -> Seq<char> {
        self.text@
    }

    /// Take a base, if a receiver can reach it.
    pub fn parse(base: &str) -> (r: Result<Self, CastMediaError>)
        ensures
            match r {
                Ok(b) => base_of(base@) == Ok::<Seq<char>, MediaErrorView>(b@),
                Err(e) => base_of(base@) == Err::<Seq<char>, MediaErrorView>(e@),
            },
    {
        let trimmed = match strip_suffix(base, "/") {
            Some(t) => t,
            None => base,
        };
        assert(trimmed@ =~= without_suffix(base@, "/"@));
        let rest = match strip_prefix(trimmed, "http://") {
            Some(rest) => rest,
            None => match strip_prefix(trimmed, "https://") {
                Some(rest) => rest,
                None => {
                    return Err(CastMediaError::NotHttp { base: base.to_owned() });
                },
            },
        };
        assert(after_scheme(trimmed@) == Some(rest@));
        if find_char(rest, '/').is_some() || find_char(rest, '?').is_some() {
            return Err(CastMediaError::HasPath { base: base.to_owned() });
        }
        let host = authority_host(rest);
        if host.as_str().unicode_len() == 0 {
            return Err(CastMediaError::EmptyHost { base: base.to_owned() });
        }
        match validate_device_reachable_host(host.as_str(), base) {
            Err(e) => Err(e),
            Ok(()) => Ok(CastMediaBase { text: trimmed.to_owned() }),
        }
    }

    /// The base, without a slash at its end.
    pub fn as_str(&self) -> (r: &str)
        ensures
            r@ == self@,
    {
        self.text.as_str()
    }

    /// The address of a playlist on a mount.
    pub fn join(&self, mount_route: &str, playlist: &str) -> (r: String)
        ensures
            r@ == self@ + "/"@ + crate::text::trim_of(mount_route@, CharClass::Only('/')) + "/"@
                + playlist@,
    {
        let route = trim(mount_route, CharClass::Only('/'));
        let head = cat3(self.text.as_str(), "/", route);
        cat3(head.as_str(), "/", playlist)
    }
}

/// The host of an authority, without its port and without brackets.
fn authority_host(authority: &str) -> (r: String)
    ensures
        r@ == host_of(authority@),
{
    match strip_prefix(authority, "[") {
        Some(rest) => {
            proof {
                reveal_strlit("[");
                assert("["@[0] == authority@.subrange(0, 1)[0]);
                assert(rest@ =~= authority@.skip(1));
            }
            match split_once(rest, ']') {
                Some(p) => p.0.to_owned(),
                None => rest.to_owned(),
            }
        },
        None => {
            proof {
                reveal_strlit("[");
                if authority@.len() > 0 && authority@[0] == '[' {
                    assert("["@ =~= authority@.take(1));
                    assert("["@.is_prefix_of(authority@));
                }
            }
            match split_once(authority, ':') {
                Some(p) => p.0.to_owned(),
                None => authority.to_owned(),
            }
        },
    }
}

/// Refuse a host that a receiver cannot reach.
fn validate_device_reachable_host(host: &str, base: &str) -> (r: Result<(), CastMediaError>)
    ensures
        match r {
            Ok(()) => host_refusal(host@, base@) is None,
            Err(e) => host_refusal(host@, base@) == Some(e@),
        },
{
    if let Some(g) = parse_ipv6(host) {
        let loopback = g[0] == 0 && g[1] == 0 && g[2] == 0 && g[3] == 0 && g[4] == 0 && g[5] == 0
            && g[6] == 0 && g[7] == 1;
        proof {
            let v = crate::net_literal::group_values(g@);
            if loopback {
                assert(v =~= crate::net_literal::ipv6_loopback());
            } else {
                assert(v != crate::net_literal::ipv6_loopback()) by {
                    let l = crate::net_literal::ipv6_loopback();
                    if v == l {
                        assert(v[0] == l[0] && v[1] == l[1] && v[2] == l[2] && v[3] == l[3] && v[4]
                            == l[4] && v[5] == l[5] && v[6] == l[6] && v[7] == l[7]);
                    }
                }
            }
        }
        if loopback {
            return Err(CastMediaError::Loopback { base: base.to_owned() });
        }
        return Ok(());
    }
    if let Some(o) = parse_ipv4(host) {
        if o[0] == 127 {
            return Err(CastMediaError::Loopback { base: base.to_owned() });
        }
        return Ok(());
    }
    let low = ascii_lowercase(host);
    let last = match rfind_char(low.as_str(), '.') {
        Some(i) => {
            let n: usize = low.as_str().unicode_len();
            let t = low.as_str().substring_char(i + 1, n);
            assert(t@ =~= low@.skip(i + 1));
            t
        },
        None => low.as_str(),
    };
    if str_eq(low.as_str(), "localhost") || str_eq(last, "local") || find_char(
        low.as_str(),
        '.',
    ).is_none() {
        return Err(CastMediaError::UnresolvableHost { host: host.to_owned() });
    }
    Ok(())
}

// ---- Receivers ---------------------------------------------------------------

/// The host and the port of a receiver's authority. A literal with colons
/// stands in brackets.
pub open spec fn authority_of(address: Seq<char>) -> Option<(Seq<char>, nat)> {
    let a = crate::text::trim_of(address, CharClass::White);
    if a.len() == 0 {
        None
    } else if a[0] == '[' {
        match crate::text::split_first(a.skip(1), ']') {
            None => None,
            Some((host, after)) => if host.len() == 0 {
                None
            } else if after.len() == 0 {
                Some((host, DEFAULT_CAST_PORT as nat))
            } else if after[0] == ':' {
                match crate::text::unsigned_of(after.skip(1), 65_535) {
                    Some(p) => Some((host, p)),
                    None => None,
                }
            } else {
                None
            },
        }
    } else {
        match crate::text::last_index(a, ':') {
            None => Some((a, DEFAULT_CAST_PORT as nat)),
            Some(i) => {
                let host = a.take(i);
                if crate::text::first_index(host, ':') is Some || host.len() == 0 {
                    None
                } else {
                    match crate::text::unsigned_of(a.skip(i + 1), 65_535) {
                        Some(p) => Some((host, p)),
                        None => None,
                    }
                }
            },
        }
    }
}

/// A port.
fn parse_port(s: &str) -> (r: Option<u16>)
    ensures
        match r {
            Some(p) => crate::text::unsigned_of(s@, 65_535) == Some(p as nat),
            None => crate::text::unsigned_of(s@, 65_535) is None,
        },
{
    match parse_unsigned(s, 65_535) {
        Some(p) => Some(p as u16),
        None => None,
    }
}

/// The host and the port of a receiver's authority; `None` where it has no
/// host or a malformed port.
pub fn split_authority(address: &str) -> (r: Option<(String, u16)>)
    ensures
        match r {
            Some(p) => authority_of(address@) == Some((p.0@, p.1 as nat)),
            None => authority_of(address@) is None,
        },
{
    let a = trim(address, CharClass::White);
    let n: usize = a.unicode_len();
    if n == 0 {
        return None;
    }
    if a.get_char(0) == '[' {
        let rest = a.substring_char(1, n);
        assert(rest@ =~= a@.skip(1));
        return match split_once(rest, ']') {
            None => None,
            Some((host, after)) => {
                if host.unicode_len() == 0 {
                    None
                } else {
                    let m: usize = after.unicode_len();
                    if m == 0 {
                        Some((host.to_owned(), DEFAULT_CAST_PORT))
                    } else if after.get_char(0) == ':' {
                        let digits = after.substring_char(1, m);
                        assert(digits@ =~= after@.skip(1));
                        match parse_port(digits) {
                            Some(p) => Some((host.to_owned(), p)),
                            None => None,
                        }
                    } else {
                        None
                    }
                }
            },
        };
    }
    match rfind_char(a, ':') {
        None => Some((a.to_owned(), DEFAULT_CAST_PORT)),
        Some(i) => {
            let host = a.substring_char(0, i);
            let port = a.substring_char(i + 1, n);
            assert(host@ =~= a@.take(i as int));
            assert(port@ =~= a@.skip(i + 1));
            if find_char(host, ':').is_some() || host.unicode_len() == 0 {
                None
            } else {
                match parse_port(port) {
                    Some(p) => Some((host.to_owned(), p)),
                    None => None,
                }
            }
        },
    }
}

// ---- Delivery ----------------------------------------------------------------

/// What a display shows.
#[derive(Debug, PartialEq, Eq)]
pub enum DisplayAssign {
    /// The program, or not.
    Program(bool),
    /// One output.
    Output(String),
    /// A head of a wall.
    WallHead(String),
}

/// The renditions that can be shown, in the order in which their outputs were
/// declared.
pub struct CastDelivery {
    targets: Table<CastMediaTarget>,
    order: Vec<String>,
}

/// The renditions by output, and the outputs in declared order.
pub struct DeliveryView {
    /// The rendition of each output.
    pub targets: Map<Seq<char>, CastMediaTarget>,
    /// The outputs in declared order.
    pub order: Seq<Seq<char>>,
}

/// A further rendition: a known output keeps its place.
pub open spec fn with_target(v: DeliveryView, id: Seq<char>, t: CastMediaTarget) -> DeliveryView {
    DeliveryView {
        targets: v.targets.insert(id, t),
        order: if v.targets.contains_key(id) {
            v.order
        } else {
            v.order.push(id)
        },
    }
}

/// The rendition of an output.
pub open spec fn target_of(v: DeliveryView, id: Seq<char>) -> Option<CastMediaTarget> {
    if v.targets.contains_key(id) {
        Some(v.targets[id])
    } else {
        None
    }
}

/// The rendition that was declared first.
pub open spec fn first_target(v: DeliveryView) -> Option<CastMediaTarget> {
    if v.order.len() == 0 {
        None
    } else {
        target_of(v, v.order[0])
    }
}

/// The rendition of an assignment. A head of a wall is no rendition.
pub open spec fn assigned(v: DeliveryView, a: DisplayAssign) -> Option<CastMediaTarget> {
    match a {
        DisplayAssign::Program(true) => first_target(v),
        DisplayAssign::Output(id) => target_of(v, id@),
        _ => None,
    }
}

/// Every output in the order has a rendition, and the other way round, and
/// none stands twice.
pub open spec fn delivery_wf(v: DeliveryView) -> bool {
    &&& forall|id: Seq<char>| #[trigger] v.targets.contains_key(id) <==> v.order.contains(id)
    &&& v.order.no_duplicates()
}

impl CastDelivery {
    /// The renditions by output, and the outputs in declared order.
    pub closed spec fn view(self) -> DeliveryView {
        DeliveryView { targets: self.targets@, order: crate::text::texts(self.order@) }
    }

    /// The delivery is one that the operations below can reach.
    pub closed spec fn wf(self) -> bool {
        &&& self.targets.wf()
        &&& delivery_wf(self@)
    }

    /// What a well-formed delivery promises.
    pub proof fn lemma_wf(self)
        requires
            self.wf(),
        ensures
            delivery_wf(self@),
    {
    }

    /// No rendition.
    pub fn new() -> (r: Self)
        ensures
            r.wf(),
            r@.targets == Map::<Seq<char>, CastMediaTarget>::empty(),
            r@.order == Seq::<Seq<char>>::empty(),
    {
        let r = CastDelivery { targets: Table::new(), order: Vec::new() };
        assert(r@.order =~= Seq::<Seq<char>>::empty());
        r
    }

    /// Declare a rendition. A known output takes the new one and keeps its
    /// place.
    pub fn insert(&mut self, output_id: &str, target: CastMediaTarget)
        requires
            old(self).wf(),
        ensures
            final(self).wf(),
            final(self)@ == with_target(old(self)@, output_id@, target),
    {
        let ghost before = self.order@;
        let ghost texts = crate::text::texts(before);
        if self.targets.insert(output_id.to_owned(), target).is_none() {
            self.order.push(output_id.to_owned());
            proof {
                assert(crate::text::texts(self.order@) =~= texts.push(output_id@));
                assert(!old(self)@.targets.contains_key(output_id@));
                assert(!old(self)@.order.contains(output_id@));
                assert forall|id: Seq<char>| #[trigger]
                    self@.targets.contains_key(id) <==> self@.order.contains(id) by {
                    if id == output_id@ {
                        assert(self@.order[texts.len() as int] == id);
                    } else {
                        assert(old(self)@.targets.contains_key(id) <==> old(self)@.order.contains(
                            id,
                        ));
                        if texts.contains(id) {
                            let k = choose|k: int| 0 <= k < texts.len() && texts[k] == id;
                            assert(self@.order[k] == id);
                        }
                        if self@.order.contains(id) {
                            let k = choose|k: int|
                                0 <= k < self@.order.len() && self@.order[k] == id;
                            assert(texts[k] == id);
                        }
                    }
                }
            }
        } else {
            proof {
                assert(old(self)@.targets.contains_key(output_id@));
                assert forall|id: Seq<char>| #[trigger]
                    self@.targets.contains_key(id) <==> self@.order.contains(id) by {
                    assert(old(self)@.targets.contains_key(id) <==> old(self)@.order.contains(id));
                }
            }
        }
    }

    /// The rendition of an output.
    pub fn for_output(&self, output_id: &str) -> (r: Option<&CastMediaTarget>)
        requires
            self.wf(),
        ensures
            match r {
                Some(t) => target_of(self@, output_id@) == Some(*t),
                None => target_of(self@, output_id@) is None,
            },
    {
        self.targets.get(output_id)
    }

    /// The rendition that was declared first.
    pub fn first(&self) -> (r: Option<&CastMediaTarget>)
        requires
            self.wf(),
        ensures
            match r {
                Some(t) => first_target(self@) == Some(*t),
                None => first_target(self@) is None,
            },
    {
        if self.order.len() == 0 {
            None
        } else {
            assert(self@.order[0] == self.order@[0]@);
            self.targets.get(self.order[0].as_str())
        }
    }

    /// The output that was declared first.
    pub fn first_output_id(&self) -> (r: Option<&str>)
        requires
            self.wf(),
        ensures
            match r {
                Some(id) => self@.order.len() > 0 && id@ == self@.order[0],
                None => self@.order.len() == 0,
            },
    {
        if self.order.len() == 0 {
            None
        } else {
            assert(self@.order[0] == self.order@[0]@);
            Some(self.order[0].as_str())
        }
    }

    /// Whether no rendition was declared.
    pub fn is_empty(&self) -> (r: bool)
        requires
            self.wf(),
        ensures
            r == (self@.order.len() == 0),
    {
        self.order.len() == 0
    }

    /// The rendition of an assignment.
    pub fn resolve_assign(&self, assign: &DisplayAssign) -> (r: Option<&CastMediaTarget>)
        requires
            self.wf(),
        ensures
            match r {
                Some(t) => assigned(self@, *assign) == Some(*t),
                None => assigned(self@, *assign) is None,
            },
    {
        match assign {
            DisplayAssign::Program(b) => if *b {
                self.first()
            } else {
                None
            },
            DisplayAssign::Output(id) => self.for_output(id.as_str()),
            DisplayAssign::WallHead(_) => None,
        }
    }
}

impl Default for CastDelivery {
    fn default() -> (r: Self)
        ensures
            r.wf(),
            r@.targets == Map::<Seq<char>, CastMediaTarget>::empty(),
            r@.order == Seq::<Seq<char>>::empty(),
    {
        CastDelivery::new()
    }
}

// ---- Laws --------------------------------------------------------------------

/// A base that was accepted has no loopback host, and no slash or question
/// mark behind its scheme.
pub proof fn law_accepted_base_is_reachable(base: Seq<char>)
    requires
        base_of(base) is Ok,
    ensures
        after_scheme(base_of(base)->Ok_0) is Some,
        ({
            let rest = after_scheme(base_of(base)->Ok_0)->0;
            &&& crate::text::first_index(rest, '/') is None
            &&& crate::text::first_index(rest, '?') is None
            &&& host_of(rest).len() > 0
            &&& host_refusal(host_of(rest), base) is None
        }),
{
}

/// Declaring an output again changes what it shows, and neither the order of
/// the outputs nor any other rendition.
pub proof fn law_redeclared_output_keeps_its_place(
    v: DeliveryView,
    id: Seq<char>,
    t: CastMediaTarget,
    other: Seq<char>,
)
    requires
        v.targets.contains_key(id),
    ensures
        with_target(v, id, t).order == v.order,
        target_of(with_target(v, id, t), id) == Some(t),
        other != id ==> target_of(with_target(v, id, t), other) == target_of(v, other),
{
}

/// The program shows what was declared first, however much is declared later.
pub proof fn law_program_is_the_first_rendition(
    v: DeliveryView,
    id: Seq<char>,
    t: CastMediaTarget,
)
    requires
        delivery_wf(v),
        v.order.len() > 0,
        id != v.order[0],
    ensures
        assigned(with_target(v, id, t), DisplayAssign::Program(true)) == assigned(
            v,
            DisplayAssign::Program(true),
        ),
{
}

/// An address without a port is dialled at the port of the protocol, and one with a
/// port at that port, for a name or an IPv4 literal as for a bracketed IPv6 literal.
pub proof fn law_authority_reads_back(host: Seq<char>, port: u16)
    requires
        host.len() > 0,
        !CharClass::White.has(host[0]),
        !CharClass::White.has(host.last()),
        host[0] != '[',
        !host.contains(':'),
        !host.contains(']'),
    ensures
        authority_of(host) == Some((host, 8009nat)),
        authority_of(host + ":"@ + crate::text::decimal(port as nat)) == Some((host, port as nat)),
        authority_of("["@ + host + "]"@) == Some((host, 8009nat)),
        authority_of("["@ + host + "]:"@ + crate::text::decimal(port as nat)) == Some(
            (host, port as nat),
        ),
{
    reveal_strlit(":");
    reveal_strlit("[");
    reveal_strlit("]");
    reveal_strlit("]:");
    let d = crate::text::decimal(port as nat);
    crate::text::lemma_decimal(port as nat);
    crate::text::lemma_decimal_read(port as nat, 65_535);
    assert(crate::text::is_digit(d.last()));
    crate::text::lemma_trim_keeps(host, CharClass::White);
    crate::text::lemma_last_index(host, ':');
    let a = host + ":"@ + d;
    assert(a[0] == host[0] && a.last() == d.last());
    crate::text::lemma_trim_keeps(a, CharClass::White);
    crate::text::lemma_last_index(a, ':');
    assert(a[host.len() as int] == ':');
    assert forall|j: int| host.len() < j < a.len() implies a[j] != ':' by {
        assert(a[j] == d[j - host.len() - 1]);
        assert(crate::text::is_digit(d[j - host.len() - 1]));
    }
    let i = crate::text::last_index(a, ':')->0;
    assert(i == host.len());
    assert(a.take(i) =~= host);
    assert(a.skip(i + 1) =~= d);
    crate::text::lemma_first_index(host, ':');
    let b = "["@ + host + "]"@;
    assert(b[0] == '[' && b.last() == ']');
    crate::text::lemma_trim_keeps(b, CharClass::White);
    lemma_bracketed(host, Seq::empty());
    assert(b.skip(1) =~= host + "]"@ + Seq::<char>::empty());
    let c = "["@ + host + "]:"@ + d;
    assert(c[0] == '[' && c.last() == d.last());
    crate::text::lemma_trim_keeps(c, CharClass::White);
    lemma_bracketed(host, ":"@ + d);
    assert(c.skip(1) =~= host + "]"@ + (":"@ + d));
    assert((":"@ + d).skip(1) =~= d);
}

/// A host is cut off at its closing bracket.
proof fn lemma_bracketed(host: Seq<char>, rest: Seq<char>)
    requires
        !host.contains(']'),
    ensures
        crate::text::split_first(host + "]"@ + rest, ']') == Some((host, rest)),
{
    reveal_strlit("]");
    let s = host + "]"@ + rest;
    crate::text::lemma_first_index(s, ']');
    assert(s[host.len() as int] == ']');
    let i = crate::text::first_index(s, ']')->0;
    if i < host.len() {
        assert(s[i] == host[i]);
    }
    assert(s.take(host.len() as int) =~= host);
    assert(s.skip((host.len() + 1) as int) =~= rest);
}

/// What a device cannot reach is refused: the loopback addresses of either family,
/// the name for this host, names that only a local network resolves, and names of a
/// single label. Every other literal or name is accepted.
pub proof fn law_reachable_hosts(host: Seq<char>, base: Seq<char>)
    ensures
        ({
            let six = crate::net_literal::ipv6_groups(host);
            let four = crate::net_literal::ipv4_octets(host);
            let low = crate::text::lowered(host);
            &&& six is Some ==> (host_refusal(host, base) == Some(MediaErrorView::Loopback(base))
                <==> six->0 == crate::net_literal::ipv6_loopback())
            &&& six is None && four is Some ==> (host_refusal(host, base) == Some(
                MediaErrorView::Loopback(base),
            ) <==> four->0[0] == 127)
            &&& six is Some || four is Some ==> host_refusal(host, base) is None || host_refusal(
                host,
                base,
            ) == Some(MediaErrorView::Loopback(base))
            &&& six is None && four is None ==> (host_refusal(host, base) == Some(
                MediaErrorView::UnresolvableHost(host),
            ) <==> low == "localhost"@ || after_last(low, '.') == "local"@ || !low.contains('.'))
            &&& six is None && four is None ==> host_refusal(host, base) is None || host_refusal(
                host,
                base,
            ) == Some(MediaErrorView::UnresolvableHost(host))
        }),
{
    let low = crate::text::lowered(host);
    crate::text::lemma_first_index(low, '.');
}

/// An accepted base is what was given, but for one slash behind it.
pub proof fn law_base_is_kept(base: Seq<char>)
    requires
        base_of(base) is Ok,
    ensures
        base_of(base)->Ok_0 == base || base_of(base)->Ok_0 + "/"@ == base,
        base_of(base)->Ok_0.len() > 0,
{
    reveal_strlit("/");
    reveal_strlit("http://");
    reveal_strlit("https://");
    if "/"@.is_suffix_of(base) {
        assert(base.take(base.len() - 1) + "/"@ =~= base);
    }
}

/// A base must be a web address, and must be nothing but one: a path or a query behind
/// the host is refused, and so is an address without a host.
pub proof fn law_base_is_scheme_and_host(rest: Seq<char>)
    requires
        rest.len() > 0,
        rest.last() != '/',
    ensures
        rest.contains('/') || rest.contains('?') ==> base_of("http://"@ + rest) == Err::<
            Seq<char>,
            MediaErrorView,
        >(MediaErrorView::HasPath("http://"@ + rest)) && base_of("https://"@ + rest) == Err::<
            Seq<char>,
            MediaErrorView,
        >(MediaErrorView::HasPath("https://"@ + rest)),
        !rest.contains('/') && !rest.contains('?') && host_of(rest).len() > 0 && host_refusal(
            host_of(rest),
            "http://"@ + rest,
        ) is None ==> base_of("http://"@ + rest) == Ok::<Seq<char>, MediaErrorView>(
            "http://"@ + rest,
        ),
        !rest.contains('/') && !rest.contains('?') && host_of(rest).len() == 0 ==> base_of(
            "http://"@ + rest,
        ) == Err::<Seq<char>, MediaErrorView>(MediaErrorView::EmptyHost("http://"@ + rest)),
{
    reveal_strlit("/");
    reveal_strlit("http://");
    reveal_strlit("https://");
    crate::text::lemma_first_index(rest, '/');
    crate::text::lemma_first_index(rest, '?');
    let a = "http://"@ + rest;
    assert(a.last() == rest.last());
    assert(!"/"@.is_suffix_of(a)) by {
        if "/"@.is_suffix_of(a) {
            assert(a.subrange(a.len() - 1, a.len() as int)[0] == '/');
        }
    }
    assert("http://"@.is_prefix_of(a));
    assert(a.skip(7) =~= rest);
    let b = "https://"@ + rest;
    assert(b.last() == rest.last());
    assert(!"/"@.is_suffix_of(b)) by {
        if "/"@.is_suffix_of(b) {
            assert(b.subrange(b.len() - 1, b.len() as int)[0] == '/');
        }
    }
    assert("https://"@.is_prefix_of(b));
    assert(!"http://"@.is_prefix_of(b)) by {
        assert(b[4] == 's');
        assert("http://"@[4] == ':');
    }
    assert(b.skip(8) =~= rest);
}

/// The host of an authority is what stands before the port, in brackets or not.
pub proof fn law_host_is_before_the_port(host: Seq<char>, port: Seq<char>)
    requires
        !host.contains(':'),
        !host.contains(']'),
        host.len() > 0,
        host[0] != '[',
    ensures
        host_of(host) == host,
        host_of(host + ":"@ + port) == host,
        host_of("["@ + host + "]"@) == host,
        host_of("["@ + host + "]:"@ + port) == host,
{
    reveal_strlit(":");
    reveal_strlit("[");
    reveal_strlit("]");
    reveal_strlit("]:");
    crate::text::lemma_first_index(host, ':');
    let a = host + ":"@ + port;
    crate::text::lemma_first_index(a, ':');
    assert(a[0] == host[0]);
    assert(a[host.len() as int] == ':');
    let i = crate::text::first_index(a, ':')->0;
    if i < host.len() {
        assert(a[i] == host[i]);
    }
    assert(a.take(host.len() as int) =~= host);
    let b = "["@ + host + "]"@;
    assert(b[0] == '[');
    lemma_bracketed(host, Seq::empty());
    assert(b.skip(1) =~= host + "]"@ + Seq::<char>::empty());
    let c = "["@ + host + "]:"@ + port;
    assert(c[0] == '[');
    lemma_bracketed(host, ":"@ + port);
    assert(c.skip(1) =~= host + "]"@ + (":"@ + port));
}

/// A display that shows an output gets that output's rendition, one that shows the
/// program the first that was declared, and no other assignment gets any.
pub proof fn law_display_gets_what_it_shows(v: DeliveryView, id: String, t: CastMediaTarget)
    ensures
        assigned(with_target(v, id@, t), DisplayAssign::Output(id)) == Some(t),
        !v.targets.contains_key(id@) ==> assigned(v, DisplayAssign::Output(id)) is None,
        v.order.len() > 0 && v.targets.contains_key(v.order[0]) ==> assigned(
            v,
            DisplayAssign::Program(true),
        ) == Some(v.targets[v.order[0]]),
        assigned(v, DisplayAssign::Program(false)) is None,
        v.order.len() == 0 ==> assigned(v, DisplayAssign::Program(true)) is None,
        v.order.len() == 0 && !v.targets.contains_key(id@) ==> assigned(
            with_target(v, id@, t),
            DisplayAssign::Program(true),
        ) == Some(t),
{
}

/// The formats of segments go by their names on the wire.
pub proof fn law_formats_are_named(f: HlsSegmentFormat)
    ensures
        f == HlsSegmentFormat::MpegTs ==> format_token(f) == "mpeg2_ts"@,
        f == HlsSegmentFormat::Fmp4 ==> format_token(f) == "fmp4"@,
{
}

/// Names of the local network are refused, in whatever case they are written, and a
/// name in a public domain is not.
pub proof fn law_local_names_are_refused(name: Seq<char>, host: Seq<char>, base: Seq<char>)
    requires
        crate::net_literal::ipv6_groups(host) is None,
        crate::net_literal::ipv4_octets(host) is None,
    ensures
        crate::text::lowered(host) == name + ".local"@ ==> host_refusal(host, base) == Some(
            MediaErrorView::UnresolvableHost(host),
        ),
        crate::text::lowered(host) == name + ".com"@ ==> host_refusal(host, base) is None,
        !crate::text::lowered(host).contains('.') ==> host_refusal(host, base) == Some(
            MediaErrorView::UnresolvableHost(host),
        ),
{
    reveal_strlit(".local");
    reveal_strlit("local");
    reveal_strlit(".com");
    reveal_strlit("com");
    reveal_strlit("localhost");
    let low = crate::text::lowered(host);
    crate::text::lemma_first_index(low, '.');
    crate::text::lemma_last_index(low, '.');
    let n = name.len() as int;
    if low == name + ".local"@ {
        assert(low[n] == '.');
        assert forall|j: int| n < j < low.len() implies low[j] != '.' by {
            assert(low[j] == ".local"@[j - n]);
        }
        assert(crate::text::last_index(low, '.') == Some(n));
        assert(low.skip(n + 1) =~= "local"@);
    }
    if low == name + ".com"@ {
        assert(low[n] == '.');
        assert forall|j: int| n < j < low.len() implies low[j] != '.' by {
            assert(low[j] == ".com"@[j - n]);
        }
        assert(crate::text::last_index(low, '.') == Some(n));
        assert(low.skip(n + 1) =~= "com"@);
        assert("com"@.len() != "local"@.len());
        assert(low != "localhost"@) by {
            if low == "localhost"@ {
                assert("localhost"@[n] == '.');
                assert(n == 5);
            }
        }
    }
}

/// A refused base is described by what was given and by what is wrong with it.
pub proof fn law_refused_base_is_described(base: Seq<char>)
    ensures
        media_error_text(MediaErrorView::NotHttp(base)) == "cast media base "@
            + crate::text::debug_of(base) + " must be an http:// or https:// URL"@,
        ("cast media base "@ + crate::text::debug_of(base)).is_prefix_of(
            media_error_text(MediaErrorView::Loopback(base)),
        ),
        ("cast media base host "@ + crate::text::debug_of(base)).is_prefix_of(
            media_error_text(MediaErrorView::UnresolvableHost(base)),
        ),
        media_error_text(MediaErrorView::HasPath(base)) == "cast media base "@
            + crate::text::debug_of(base)
            + " must not carry a path or query (the /hls mounts are appended automatically)"@,
        media_error_text(MediaErrorView::EmptyHost(base)) == "cast media base "@
            + crate::text::debug_of(base) + " has no host"@,
{
    let a = "cast media base "@ + crate::text::debug_of(base);
    assert(media_error_text(MediaErrorView::Loopback(base)).take(a.len() as int) =~= a);
    let b = "cast media base host "@ + crate::text::debug_of(base);
    assert(media_error_text(MediaErrorView::UnresolvableHost(base)).take(b.len() as int) =~= b);
}

} // verus!
