//! Which answers a browser of another origin may read.
//!
//! The media-signalling routes answer browsers that were served from another
//! web origin. A request whose origin is on the list has it reflected. A
//! preflight always succeeds. Every answer varies by origin.

use vstd::prelude::*;

use crate::text::str_eq;

verus! {

/// The methods of the signalling routes.
pub const ALLOW_METHODS: &'static str = "GET, POST, DELETE, OPTIONS";

/// The headers that a browser may send.
pub const ALLOW_HEADERS: &'static str = "authorization, content-type";

/// The headers that a browser may read.
pub const EXPOSE_HEADERS: &'static str = "location, link";

/// How long a browser may remember a preflight, in seconds.
pub const MAX_AGE: &'static str = "600";

/// Whether the list permits `origin`: by name, or because it permits all.
pub open spec fn permits_origin(allow: Seq<Seq<char>>, origin: Seq<char>) -> bool {
    allow.contains("*"@) || allow.contains(origin)
}

/// Whether the list permits `origin`.
pub fn origin_allowed(allow: &[String], origin: &str) -> (r: bool)
    ensures
        r == permits_origin(crate::text::texts(allow@), origin@),
{
    let ghost names = crate::text::texts(allow@);
    let mut i: usize = 0;
    while i < allow.len()
        invariant
            i <= allow.len(),
            names == crate::text::texts(allow@),
            forall|j: int| 0 <= j < i ==> #[trigger] names[j] != "*"@ && names[j] != origin@,
        decreases allow.len() - i,
    {
        let name = allow[i].as_str();
        assert(names[i as int] == name@);
        if str_eq(name, "*") || str_eq(name, origin) {
            return true;
        }
        i += 1;
    }
    assert(!permits_origin(names, origin@)) by {
        if names.contains("*"@) {
            let j = choose|j: int| 0 <= j < names.len() && names[j] == "*"@;
            assert(names[j] == "*"@);
        }
        if names.contains(origin@) {
            let j = choose|j: int| 0 <= j < names.len() && names[j] == origin@;
            assert(names[j] == origin@);
        }
    }
    false
}

/// A header to set on an answer. It replaces one of the same name.
#[derive(Debug, PartialEq, Eq)]
pub struct SetHeader {
    /// The name.
    pub name: String,
    /// The value.
    pub value: String,
}

/// What to do with the answer of a signalling route.
#[derive(Debug, PartialEq, Eq)]
pub struct CorsPlan {
    /// Whether it is replaced by an empty success that keeps its `accept-post`
    /// header alone.
    pub no_content: bool,
    /// The headers to set, in this order.
    pub headers: Vec<SetHeader>,
}

/// The headers of a list, by name and value.
pub open spec fn header_texts(headers: Seq<SetHeader>) -> Seq<(Seq<char>, Seq<char>)> {
    headers.map_values(|h: SetHeader| (h.name@, h.value@))
}

/// The origin to reflect: the one of the request, where the list permits it.
pub open spec fn reflected(allow: Seq<Seq<char>>, origin: Option<Seq<char>>) -> Option<Seq<char>> {
    match origin {
        Some(o) if permits_origin(allow, o) => Some(o),
        _ => None,
    }
}

/// The headers of an answer, where `origin` is to be reflected.
pub open spec fn cors_headers(origin: Option<Seq<char>>, preflight: bool) -> Seq<
    (Seq<char>, Seq<char>),
> {
    let first = if preflight {
        seq![("allow"@, ALLOW_METHODS@)] + if origin is Some {
            seq![
                ("access-control-allow-methods"@, ALLOW_METHODS@),
                ("access-control-allow-headers"@, ALLOW_HEADERS@),
                ("access-control-max-age"@, MAX_AGE@),
            ]
        } else {
            Seq::empty()
        }
    } else if origin is Some {
        seq![("access-control-expose-headers"@, EXPOSE_HEADERS@)]
    } else {
        Seq::empty()
    };
    let last = match origin {
        Some(o) => seq![("access-control-allow-origin"@, o)],
        None => Seq::empty(),
    };
    first + seq![("vary"@, "Origin"@)] + last
}

fn set(headers: &mut Vec<SetHeader>, name: &str, value: &str)
    ensures
        header_texts(final(headers)@) == header_texts(old(headers)@).push((name@, value@)),
{
    let ghost before = headers@;
    headers.push(SetHeader { name: name.to_owned(), value: value.to_owned() });
    assert(header_texts(headers@) =~= header_texts(before).push((name@, value@)));
}

/// What to do with the answer of a signalling route that has `status`, to a
/// request with this origin. A preflight that the route does not know is
/// answered with an empty success.
pub fn signalling_cors(allow: &[String], origin: Option<&str>, is_preflight: bool, status: u16) -> (r:
    CorsPlan)
    ensures
        r.no_content == (is_preflight && status == 405),
        header_texts(r.headers@) == cors_headers(
            reflected(
                crate::text::texts(allow@),
                match origin {
                    Some(o) => Some(o@),
                    None => None,
                },
            ),
            is_preflight,
        ),
{
    let allowed: Option<&str> = match origin {
        Some(o) => if origin_allowed(allow, o) {
            Some(o)
        } else {
            None
        },
        None => None,
    };
    let mut headers: Vec<SetHeader> = Vec::new();
    assert(header_texts(headers@) =~= Seq::empty());
    if is_preflight {
        set(&mut headers, "allow", ALLOW_METHODS);
        if allowed.is_some() {
            set(&mut headers, "access-control-allow-methods", ALLOW_METHODS);
            set(&mut headers, "access-control-allow-headers", ALLOW_HEADERS);
            set(&mut headers, "access-control-max-age", MAX_AGE);
        }
    } else if allowed.is_some() {
        set(&mut headers, "access-control-expose-headers", EXPOSE_HEADERS);
    }
    set(&mut headers, "vary", "Origin");
    if let Some(o) = allowed {
        set(&mut headers, "access-control-allow-origin", o);
    }
    proof {
        let seen = reflected(
            crate::text::texts(allow@),
            match origin {
                Some(o) => Some(o@),
                None => None,
            },
        );
        assert(header_texts(headers@) =~= cors_headers(seen, is_preflight));
    }
    CorsPlan { no_content: is_preflight && status == 405, headers }
}

// ---- Laws ------------------------------------------------------------------------

/// Whether a name is one of the headers by which a browser is let in.
pub open spec fn lets_in(name: Seq<char>) -> bool {
    "access-control-"@.is_prefix_of(name)
}

/// Every answer varies by origin, so that no shared cache serves one caller's
/// answer to another.
pub proof fn law_every_answer_varies_by_origin(origin: Option<Seq<char>>, preflight: bool)
    ensures
        cors_headers(origin, preflight).contains(("vary"@, "Origin"@)),
{
    let h = cors_headers(origin, preflight);
    let n: int = if preflight {
        if origin is Some {
            4
        } else {
            1
        }
    } else if origin is Some {
        1
    } else {
        0
    };
    assert(h[n] == ("vary"@, "Origin"@));
}

/// Without an origin that the list permits, no header lets a browser in.
pub proof fn law_no_origin_no_access(allow: Seq<Seq<char>>, origin: Option<Seq<char>>, preflight: bool, i: int)
    requires
        origin is Some ==> !permits_origin(allow, origin->0),
        0 <= i < cors_headers(reflected(allow, origin), preflight).len(),
    ensures
        !lets_in(cors_headers(reflected(allow, origin), preflight)[i].0),
{
    reveal_strlit("access-control-");
    reveal_strlit("allow");
    reveal_strlit("vary");
}

/// An origin is reflected only where it was sent and permitted, and as it was
/// sent.
pub proof fn law_reflected_origin_was_sent(allow: Seq<Seq<char>>, origin: Option<Seq<char>>)
    ensures
        reflected(allow, origin) matches Some(o) ==> origin == Some(o) && permits_origin(allow, o),
        allow.len() == 0 ==> reflected(allow, origin) is None,
{
}

/// An origin is let in where the list names it or lets everybody in.
pub proof fn law_listed_origins_are_let_in(allow: Seq<Seq<char>>, origin: Seq<char>)
    ensures
        reflected(allow, Some(origin)) == (if allow.contains("*"@) || allow.contains(origin) {
            Some(origin)
        } else {
            None
        }),
        reflected(allow, None) is None,
        reflected(Seq::empty(), Some(origin)) is None,
        reflected(seq!["*"@], Some(origin)) == Some(origin),
        reflected(seq![origin], Some(origin)) == Some(origin),
{
    assert(seq!["*"@][0] == "*"@);
    assert(seq!["*"@].contains("*"@));
    assert(seq![origin][0] == origin);
    assert(seq![origin].contains(origin));
}

/// An origin that is let in is named in the answer. Before a request it is told the
/// methods, the headers and how long that holds; in the answer to one, the headers that
/// it may read.
pub proof fn law_let_in_origin_is_told_what_it_may(origin: Seq<char>)
    ensures
        cors_headers(Some(origin), true).contains(("access-control-allow-origin"@, origin)),
        cors_headers(Some(origin), true).contains(
            ("access-control-allow-methods"@, "GET, POST, DELETE, OPTIONS"@),
        ),
        cors_headers(Some(origin), true).contains(
            ("access-control-allow-headers"@, "authorization, content-type"@),
        ),
        cors_headers(Some(origin), true).contains(("access-control-max-age"@, "600"@)),
        cors_headers(Some(origin), true).contains(("allow"@, "GET, POST, DELETE, OPTIONS"@)),
        cors_headers(Some(origin), true).contains(("vary"@, "Origin"@)),
        cors_headers(Some(origin), false).contains(("access-control-allow-origin"@, origin)),
        cors_headers(Some(origin), false).contains(
            ("access-control-expose-headers"@, "location, link"@),
        ),
        cors_headers(Some(origin), false).contains(("vary"@, "Origin"@)),
        cors_headers(None, false) == seq![("vary"@, "Origin"@)],
        cors_headers(None, true) == seq![
            ("allow"@, "GET, POST, DELETE, OPTIONS"@),
            ("vary"@, "Origin"@),
        ],
{
    let pre = cors_headers(Some(origin), true);
    assert(pre[0] == ("allow"@, "GET, POST, DELETE, OPTIONS"@));
    assert(pre[1] == ("access-control-allow-methods"@, "GET, POST, DELETE, OPTIONS"@));
    assert(pre[2] == ("access-control-allow-headers"@, "authorization, content-type"@));
    assert(pre[3] == ("access-control-max-age"@, "600"@));
    assert(pre[4] == ("vary"@, "Origin"@));
    assert(pre[5] == ("access-control-allow-origin"@, origin));
    let post = cors_headers(Some(origin), false);
    assert(post[0] == ("access-control-expose-headers"@, "location, link"@));
    assert(post[1] == ("vary"@, "Origin"@));
    assert(post[2] == ("access-control-allow-origin"@, origin));
    assert(cors_headers(None, false) =~= seq![("vary"@, "Origin"@)]);
    assert(cors_headers(None, true) =~= seq![
        ("allow"@, "GET, POST, DELETE, OPTIONS"@),
        ("vary"@, "Origin"@),
    ]);
}

} // verus!
