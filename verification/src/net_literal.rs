//! IPv4 and IPv6 address literals.

use vstd::prelude::*;

use crate::text::{chars_of, split_all};

verus! {

// ---- Numbers -----------------------------------------------------------------

/// Whether `c` is a hexadecimal digit.
pub open spec fn is_hex(c: char) -> bool {
    '0' <= c <= '9' || 'a' <= c <= 'f' || 'A' <= c <= 'F'
}

/// The value of a hexadecimal digit.
pub open spec fn hex_value(c: char) -> nat {
    if '0' <= c <= '9' {
        (c as u32 - 48) as nat
    } else if 'a' <= c <= 'f' {
        (c as u32 - 87) as nat
    } else {
        (c as u32 - 55) as nat
    }
}

/// The number that a run of hexadecimal digits denotes.
pub open spec fn hex_number(s: Seq<char>) -> nat
    decreases s.len(),
{
    if s.len() == 0 {
        0
    } else {
        hex_number(s.drop_last()) * 16 + hex_value(s.last())
    }
}

/// One to four hexadecimal digits.
pub open spec fn is_group(s: Seq<char>) -> bool {
    &&& 1 <= s.len() <= 4
    &&& forall|i: int| 0 <= i < s.len() ==> is_hex(#[trigger] s[i])
}

/// One to three digits without a leading zero, of at most 255.
pub open spec fn is_octet(s: Seq<char>) -> bool {
    &&& crate::text::all_digits(s)
    &&& s.len() <= 3
    &&& s.len() > 1 ==> s[0] != '0'
    &&& crate::text::digits_value(s) <= 255
}

/// The number that a group of hexadecimal digits denotes.
fn parse_group(s: &str) -> (r: Option<u16>)
    ensures
        match r {
            Some(n) => is_group(s@) && hex_number(s@) == n,
            None => !is_group(s@),
        },
{
    let v = chars_of(s);
    if v.len() == 0 || v.len() > 4 {
        return None;
    }
    let mut n: u32 = 0;
    let mut i: usize = 0;
    assert(s@.take(0) =~= Seq::<char>::empty());
    while i < v.len()
        invariant
            v@ == s@,
            v.len() <= 4,
            i <= v.len(),
            n == hex_number(s@.take(i as int)),
            i == 0 ==> n == 0,
            i == 1 ==> n < 16,
            i == 2 ==> n < 256,
            i == 3 ==> n < 4_096,
            i == 4 ==> n < 65_536,
            forall|j: int| 0 <= j < i ==> is_hex(#[trigger] s@[j]),
        decreases v.len() - i,
    {
        let c = v[i];
        let d: u32 = if '0' <= c && c <= '9' {
            c as u32 - 48
        } else if 'a' <= c && c <= 'f' {
            c as u32 - 87
        } else if 'A' <= c && c <= 'F' {
            c as u32 - 55
        } else {
            assert(!is_hex(s@[i as int]));
            return None;
        };
        assert(s@.take(i + 1).drop_last() =~= s@.take(i as int));
        n = n * 16 + d;
        i += 1;
    }
    assert(s@.take(i as int) =~= s@);
    Some(n as u16)
}

/// The number that an octet denotes.
fn parse_octet(s: &str) -> (r: Option<u8>)
    ensures
        match r {
            Some(n) => is_octet(s@) && crate::text::digits_value(s@) == n,
            None => !is_octet(s@),
        },
{
    let v = chars_of(s);
    if v.len() == 0 || v.len() > 3 {
        return None;
    }
    if v.len() > 1 && v[0] == '0' {
        return None;
    }
    let mut n: u32 = 0;
    let mut i: usize = 0;
    assert(s@.take(0) =~= Seq::<char>::empty());
    while i < v.len()
        invariant
            v@ == s@,
            1 <= v.len() <= 3,
            i <= v.len(),
            n == crate::text::digits_value(s@.take(i as int)),
            i == 0 ==> n == 0,
            i == 1 ==> n < 10,
            i == 2 ==> n < 100,
            i == 3 ==> n < 1_000,
            forall|j: int| 0 <= j < i ==> crate::text::is_digit(#[trigger] s@[j]),
        decreases v.len() - i,
    {
        let c = v[i];
        if !('0' <= c && c <= '9') {
            assert(!crate::text::is_digit(s@[i as int]));
            return None;
        }
        assert(s@.take(i + 1).drop_last() =~= s@.take(i as int));
        n = n * 10 + (c as u32 - 48);
        i += 1;
    }
    assert(s@.take(i as int) =~= s@);
    if n > 255 {
        return None;
    }
    Some(n as u8)
}

// ---- IPv4 --------------------------------------------------------------------

/// The octets of an IPv4 literal: four, with dots between them.
pub open spec fn ipv4_octets(s: Seq<char>) -> Option<Seq<nat>> {
    let parts = crate::text::pieces(s, '.');
    if parts.len() == 4 && is_octet(parts[0]) && is_octet(parts[1]) && is_octet(parts[2])
        && is_octet(parts[3]) {
        Some(
            seq![
                crate::text::digits_value(parts[0]),
                crate::text::digits_value(parts[1]),
                crate::text::digits_value(parts[2]),
                crate::text::digits_value(parts[3]),
            ],
        )
    } else {
        None
    }
}

/// The octets of an IPv4 literal.
pub fn parse_ipv4(s: &str) -> (r: Option<[u8; 4]>)
    ensures
        match r {
            Some(o) => ipv4_octets(s@) == Some(
                seq![o@[0] as nat, o@[1] as nat, o@[2] as nat, o@[3] as nat],
            ),
            None => ipv4_octets(s@) is None,
        },
{
    let parts = split_all(s, '.');
    let ghost ps = crate::text::pieces(s@, '.');
    if parts.len() != 4 {
        return None;
    }
    assert(ps[0] == parts@[0]@ && ps[1] == parts@[1]@ && ps[2] == parts@[2]@ && ps[3]
        == parts@[3]@);
    match (
        parse_octet(parts[0].as_str()),
        parse_octet(parts[1].as_str()),
        parse_octet(parts[2].as_str()),
        parse_octet(parts[3].as_str()),
    ) {
        (Some(a), Some(b), Some(c), Some(d)) => Some([a, b, c, d]),
        _ => None,
    }
}

// ---- IPv6 --------------------------------------------------------------------

/// The two groups that an embedded IPv4 literal stands for.
pub open spec fn embedded(o: Seq<nat>) -> Seq<nat> {
    seq![o[0] * 256 + o[1], o[2] * 256 + o[3]]
}

/// The groups of a colon-separated run, the last of which may be an IPv4
/// literal where `tail` says so.
pub open spec fn run_groups(parts: Seq<Seq<char>>, tail: bool) -> Option<Seq<nat>>
    decreases parts.len(),
{
    if parts.len() == 0 {
        Some(Seq::empty())
    } else {
        match run_groups(parts.drop_last(), false) {
            None => None,
            Some(init) => {
                let last = parts.last();
                if is_group(last) {
                    Some(init.push(hex_number(last)))
                } else if tail {
                    match ipv4_octets(last) {
                        Some(o) => Some(init + embedded(o)),
                        None => None,
                    }
                } else {
                    None
                }
            },
        }
    }
}

/// The groups of a stretch of an IPv6 literal. An empty stretch has none.
pub open spec fn stretch_groups(s: Seq<char>, tail: bool) -> Option<Seq<nat>> {
    if s.len() == 0 {
        Some(Seq::empty())
    } else {
        run_groups(crate::text::pieces(s, ':'), tail)
    }
}

/// A double colon stands at `i`, and none before it.
pub open spec fn gap_at(s: Seq<char>, i: int) -> bool {
    &&& 0 <= i < s.len() - 1
    &&& s[i] == ':' && s[i + 1] == ':'
    &&& forall|j: int| 0 <= j < i ==> !(#[trigger] s[j] == ':' && s[j + 1] == ':')
}

/// `s` has a double colon.
pub open spec fn has_gap(s: Seq<char>) -> bool {
    exists|i: int| gap_at(s, i)
}

/// A run of zero groups.
pub open spec fn zeros(n: int) -> Seq<nat> {
    Seq::new(n as nat, |i: int| 0nat)
}

/// The eight groups of an IPv6 literal. A double colon stands for a run of at
/// least one zero group.
pub open spec fn ipv6_groups(s: Seq<char>) -> Option<Seq<nat>> {
    if has_gap(s) {
        let i = choose|i: int| gap_at(s, i);
        match (stretch_groups(s.take(i), false), stretch_groups(s.skip(i + 2), true)) {
            (Some(head), Some(tail)) => if head.len() + tail.len() <= 7 {
                Some(head + zeros(8 - head.len() - tail.len()) + tail)
            } else {
                None
            },
            _ => None,
        }
    } else {
        match stretch_groups(s, true) {
            Some(g) => if g.len() == 8 {
                Some(g)
            } else {
                None
            },
            None => None,
        }
    }
}

/// The loopback address `::1`.
pub open spec fn ipv6_loopback() -> Seq<nat> {
    seq![0nat, 0nat, 0nat, 0nat, 0nat, 0nat, 0nat, 1nat]
}

/// Groups as numbers.
pub open spec fn group_values(g: Seq<u16>) -> Seq<nat> {
    g.map_values(|x: u16| x as nat)
}

/// The position of the first double colon.
fn find_gap(s: &str) -> (r: Option<usize>)
    ensures
        match r {
            Some(i) => gap_at(s@, i as int),
            None => !has_gap(s@),
        },
{
    let v = chars_of(s);
    if v.len() == 0 {
        return None;
    }
    let mut i: usize = 0;
    while i < v.len() - 1
        invariant
            v@ == s@,
            v.len() > 0,
            i <= v.len() - 1,
            forall|j: int| 0 <= j < i ==> !(#[trigger] s@[j] == ':' && s@[j + 1] == ':'),
        decreases v.len() - i,
    {
        if v[i] == ':' && v[i + 1] == ':' {
            assert(gap_at(s@, i as int));
            return Some(i);
        }
        i += 1;
    }
    proof {
        if has_gap(s@) {
            let k = choose|k: int| gap_at(s@, k);
            assert(s@[k] == ':' && s@[k + 1] == ':');
        }
    }
    None
}

/// The runs before a part are those of the parts before it.
proof fn lemma_run_fails(parts: Seq<Seq<char>>, n: int, tail: bool)
    requires
        0 <= n <= parts.len(),
        run_groups(parts.take(n), n == parts.len() && tail) is None,
    ensures
        run_groups(parts, tail) is None,
    decreases parts.len() - n,
{
    if n == parts.len() {
        assert(parts.take(n) =~= parts);
    } else {
        assert(parts.take(n + 1).drop_last() =~= parts.take(n));
        lemma_run_fails(parts, n + 1, tail);
    }
}

/// The groups of a stretch of an IPv6 literal.
fn parse_stretch(s: &str, tail: bool) -> (r: Option<Vec<u16>>)
    ensures
        match r {
            Some(g) => stretch_groups(s@, tail) == Some(group_values(g@)),
            None => stretch_groups(s@, tail) is None,
        },
{
    let mut out: Vec<u16> = Vec::new();
    if s.unicode_len() == 0 {
        assert(group_values(out@) =~= Seq::<nat>::empty());
        return Some(out);
    }
    let parts = split_all(s, ':');
    let ghost ps = crate::text::pieces(s@, ':');
    let mut i: usize = 0;
    assert(ps.take(0) =~= Seq::<Seq<char>>::empty());
    assert(group_values(out@) =~= Seq::<nat>::empty());
    while i < parts.len()
        invariant
            s@.len() > 0,
            ps == crate::text::pieces(s@, ':'),
            crate::text::texts(parts@) == ps,
            parts.len() == ps.len(),
            i <= parts.len(),
            run_groups(ps.take(i as int), i == ps.len() && tail) == Some(group_values(out@)),
        decreases parts.len() - i,
    {
        let ghost before = group_values(out@);
        let last = i + 1 == parts.len();
        proof {
            assert(ps[i as int] == parts@[i as int]@);
            assert(ps.take(i + 1).drop_last() =~= ps.take(i as int));
            assert(ps.take(i + 1).last() == ps[i as int]);
        }
        match parse_group(parts[i].as_str()) {
            Some(g) => {
                out.push(g);
                assert(group_values(out@) =~= before.push(hex_number(ps[i as int])));
            },
            None => {
                if !(last && tail) {
                    proof {
                        lemma_run_fails(ps, i + 1, tail);
                    }
                    return None;
                }
                match parse_ipv4(parts[i].as_str()) {
                    Some(o) => {
                        let a: u16 = o[0] as u16 * 256 + o[1] as u16;
                        let b: u16 = o[2] as u16 * 256 + o[3] as u16;
                        out.push(a);
                        out.push(b);
                        assert(group_values(out@) =~= before + embedded(
                            ipv4_octets(ps[i as int])->0,
                        ));
                    },
                    None => {
                        proof {
                            lemma_run_fails(ps, i + 1, tail);
                        }
                        return None;
                    },
                }
            },
        }
        i += 1;
    }
    assert(ps.take(i as int) =~= ps);
    Some(out)
}

/// The eight groups of an IPv6 literal.
pub fn parse_ipv6(s: &str) -> (r: Option<Vec<u16>>)
    ensures
        match r {
            Some(g) => g@.len() == 8 && ipv6_groups(s@) == Some(group_values(g@)),
            None => ipv6_groups(s@) is None,
        },
{
    match find_gap(s) {
        Some(i) => {
            let n: usize = s.unicode_len();
            let head_text = s.substring_char(0, i);
            let tail_text = s.substring_char(i + 2, n);
            proof {
                assert(head_text@ =~= s@.take(i as int));
                assert(tail_text@ =~= s@.skip(i + 2));
                let k = choose|k: int| gap_at(s@, k);
                assert(k == i) by {
                    if k < i {
                        assert(s@[k] == ':' && s@[k + 1] == ':');
                    } else if i < k {
                        assert(s@[i as int] == ':' && s@[i + 1] == ':');
                    }
                }
            }
            let head = match parse_stretch(head_text, false) {
                Some(h) => h,
                None => {
                    return None;
                },
            };
            let tail = match parse_stretch(tail_text, true) {
                Some(t) => t,
                None => {
                    return None;
                },
            };
            if head.len() > 7 || tail.len() > 7 || head.len() + tail.len() > 7 {
                return None;
            }
            let mut out: Vec<u16> = Vec::new();
            let mut k: usize = 0;
            while k < head.len()
                invariant
                    k <= head.len(),
                    out@ == head@.take(k as int),
                decreases head.len() - k,
            {
                out.push(head[k]);
                assert(head@.take(k + 1) =~= head@.take(k as int).push(head@[k as int]));
                k += 1;
            }
            assert(head@.take(k as int) =~= head@);
            let missing: usize = 8 - head.len() - tail.len();
            let ghost z = Seq::new(missing as nat, |i: int| 0u16);
            let mut m: usize = 0;
            while m < missing
                invariant
                    m <= missing,
                    z == Seq::new(missing as nat, |i: int| 0u16),
                    out@ == head@ + z.take(m as int),
                decreases missing - m,
            {
                out.push(0);
                assert(out@ =~= head@ + z.take(m + 1));
                m += 1;
            }
            assert(z.take(m as int) =~= z);
            let mut t: usize = 0;
            while t < tail.len()
                invariant
                    t <= tail.len(),
                    out@ == head@ + z + tail@.take(t as int),
                decreases tail.len() - t,
            {
                out.push(tail[t]);
                assert(out@ =~= head@ + z + tail@.take(t + 1));
                t += 1;
            }
            assert(tail@.take(t as int) =~= tail@);
            assert(group_values(out@) =~= group_values(head@) + zeros(missing as int)
                + group_values(tail@));
            Some(out)
        },
        None => match parse_stretch(s, true) {
            Some(g) => if g.len() == 8 {
                Some(g)
            } else {
                None
            },
            None => None,
        },
    }
}

/// An IPv4 literal is read as the four numbers that it is written with.
pub proof fn law_ipv4_reads_back(a: u8, b: u8, c: u8, d: u8)
    ensures
        ipv4_octets(
            crate::text::decimal(a as nat) + "."@ + crate::text::decimal(b as nat) + "."@
                + crate::text::decimal(c as nat) + "."@ + crate::text::decimal(d as nat),
        ) == Some(seq![a as nat, b as nat, c as nat, d as nat]),
{
    reveal_strlit(".");
    let wa = crate::text::decimal(a as nat);
    let wb = crate::text::decimal(b as nat);
    let wc = crate::text::decimal(c as nat);
    let wd = crate::text::decimal(d as nat);
    lemma_octet(a);
    lemma_octet(b);
    lemma_octet(c);
    lemma_octet(d);
    let none = Seq::<char>::empty();
    assert(crate::text::pieces(none, '.') == seq![none]);
    lemma_piece_grows(none, wa, '.');
    assert(none + wa =~= wa);
    assert(seq![none].drop_last().push(none + wa) =~= seq![wa]);
    lemma_piece_starts(wa, wb, '.');
    assert(seq![wa].push(wb) =~= seq![wa, wb]);
    let ab = wa + "."@ + wb;
    lemma_piece_starts(ab, wc, '.');
    assert(seq![wa, wb].push(wc) =~= seq![wa, wb, wc]);
    let abc = ab + "."@ + wc;
    lemma_piece_starts(abc, wd, '.');
    assert(seq![wa, wb, wc].push(wd) =~= seq![wa, wb, wc, wd]);
}

/// The decimal notation of a byte is an octet.
proof fn lemma_octet(n: u8)
    ensures
        is_octet(crate::text::decimal(n as nat)),
        crate::text::digits_value(crate::text::decimal(n as nat)) == n,
        !crate::text::decimal(n as nat).contains('.'),
{
    let d = crate::text::decimal(n as nat);
    crate::text::lemma_decimal(n as nat);
    reveal_with_fuel(crate::text::decimal, 4);
    assert(d.len() <= 3);
    if d.len() > 1 {
        assert(d[0] != '0');
    }
    assert forall|k: int| 0 <= k < d.len() implies d[k] != '.' by {
        assert(crate::text::is_digit(d[k]));
    }
}

/// Characters other than the separator lengthen the last stretch.
proof fn lemma_piece_grows(s: Seq<char>, w: Seq<char>, c: char)
    requires
        !w.contains(c),
    ensures
        crate::text::pieces(s + w, c) == crate::text::pieces(s, c).drop_last().push(
            crate::text::pieces(s, c).last() + w,
        ),
    decreases w.len(),
{
    let p = crate::text::pieces(s, c);
    crate::text::lemma_pieces(s, c);
    if w.len() == 0 {
        assert(s + w =~= s);
        assert(p.last() + w =~= p.last());
        assert(p.drop_last().push(p.last()) =~= p);
    } else {
        let v = w.drop_last();
        assert(w.contains(w.last()));
        assert(!v.contains(c)) by {
            if v.contains(c) {
                let k = choose|k: int| 0 <= k < v.len() && v[k] == c;
                assert(w[k] == c);
            }
        }
        lemma_piece_grows(s, v, c);
        assert((s + w).drop_last() =~= s + v);
        assert((s + w).last() == w.last());
        let q = crate::text::pieces(s + v, c);
        assert(q.drop_last() =~= p.drop_last());
        assert((p.last() + v).push(w.last()) =~= p.last() + w);
    }
}

/// A separator starts a new stretch.
proof fn lemma_piece_starts(s: Seq<char>, w: Seq<char>, c: char)
    requires
        !w.contains(c),
        c == '.',
    ensures
        crate::text::pieces(s + "."@ + w, c) == crate::text::pieces(s, c).push(w),
{
    reveal_strlit(".");
    let t = s + "."@;
    let p = crate::text::pieces(s, c);
    assert(t.last() == c);
    assert(t.drop_last() =~= s);
    assert(crate::text::pieces(t, c) == p.push(Seq::empty()));
    lemma_piece_grows(t, w, c);
    assert(p.push(Seq::<char>::empty()).drop_last() =~= p);
    assert(Seq::<char>::empty() + w =~= w);
}

/// Hexadecimal digits count from nought to fifteen, in either case, and each place is
/// sixteen of the next.
pub proof fn law_hexadecimal_counts_by_sixteen(s: Seq<char>, c: char)
    requires
        is_hex(c),
    ensures
        hex_value(c) < 16,
        hex_number(seq![c]) == hex_value(c),
        hex_number(s.push(c)) == hex_number(s) * 16 + hex_value(c),
        hex_value('0') == 0 && hex_value('9') == 9 && hex_value('a') == 10 && hex_value('f') == 15
            && hex_value('A') == 10 && hex_value('F') == 15,
{
    assert(s.push(c).drop_last() =~= s);
    assert(seq![c].drop_last() =~= Seq::<char>::empty());
    assert(hex_number(Seq::<char>::empty()) == 0);
}

/// A double colon stands for the groups that are left out, all nought: behind it alone
/// stands the last group, and before it alone the first.
pub proof fn law_double_colon_stands_for_noughts(g: Seq<char>)
    requires
        is_group(g),
    ensures
        ipv6_groups("::"@ + g) == Some(
            seq![0nat, 0nat, 0nat, 0nat, 0nat, 0nat, 0nat, hex_number(g)],
        ),
        ipv6_groups("::"@) == Some(seq![0nat, 0nat, 0nat, 0nat, 0nat, 0nat, 0nat, 0nat]),
{
    reveal_strlit("::");
    let none = Seq::<char>::empty();
    let s = "::"@ + g;
    assert(s[0] == ':' && s[1] == ':');
    assert(gap_at(s, 0));
    let i = choose|i: int| gap_at(s, i);
    assert(i == 0) by {
        if i > 0 {
            assert(!(s[0] == ':' && s[1] == ':'));
        }
    }
    assert(s.take(0) =~= none);
    assert(s.skip(2) =~= g);
    assert(!g.contains(':')) by {
        if g.contains(':') {
            let k = choose|k: int| 0 <= k < g.len() && g[k] == ':';
            assert(is_hex(g[k]));
        }
    }
    assert(crate::text::pieces(none, ':') == seq![none]);
    lemma_piece_grows(none, g, ':');
    assert(none + g =~= g);
    assert(seq![none].drop_last().push(none + g) =~= seq![g]);
    assert(seq![g].drop_last() =~= Seq::<Seq<char>>::empty());
    assert(run_groups(Seq::<Seq<char>>::empty(), false) == Some(Seq::<nat>::empty()));
    let tail = Seq::<nat>::empty().push(hex_number(g));
    assert(run_groups(seq![g], true) == Some(tail));
    assert(Seq::<nat>::empty() + zeros(7) + tail =~= seq![
        0nat,
        0nat,
        0nat,
        0nat,
        0nat,
        0nat,
        0nat,
        hex_number(g),
    ]);
    let t = "::"@;
    assert(gap_at(t, 0));
    let j = choose|j: int| gap_at(t, j);
    assert(j == 0);
    assert(t.take(0) =~= none);
    assert(t.skip(2) =~= none);
    assert(Seq::<nat>::empty() + zeros(8) + Seq::<nat>::empty() =~= seq![
        0nat,
        0nat,
        0nat,
        0nat,
        0nat,
        0nat,
        0nat,
        0nat,
    ]);
}

} // verus!
