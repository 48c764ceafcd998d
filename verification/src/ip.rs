use vstd::prelude::*;

verus! {

/// An IP address as plain data: a 32-bit IPv4 address or a 128-bit IPv6
/// address. Queries carry the address as text; `parse_ip` turns it into this.
#[derive(Clone, Copy, PartialEq, Eq, Structural, Debug)]
pub enum IpAddrRepr {
    V4(u32),
    V6(u128),
}

/// The key under which a dataset stores an address: the two families are kept
/// apart by sign, so no IPv4 address shares a key with an IPv6 address.
pub open spec fn ip_key(ip: IpAddrRepr) -> int {
    match ip {
        IpAddrRepr::V4(n) => -1 - n,
        IpAddrRepr::V6(n) => n as int,
    }
}

/// An ASCII decimal digit.
pub open spec fn is_digit(c: u8) -> bool {
    48 <= c && c <= 57
}

/// An ASCII hexadecimal digit, either case.
pub open spec fn is_hex_digit(c: u8) -> bool {
    is_digit(c) || (97 <= c && c <= 102) || (65 <= c && c <= 70)
}

/// The value of one hexadecimal digit.
pub open spec fn hex_digit_val(c: u8) -> int {
    if is_digit(c) {
        c - 48
    } else if 97 <= c && c <= 102 {
        c - 87
    } else {
        c - 55
    }
}

pub open spec fn all_digits(s: Seq<u8>) -> bool {
    forall|i: int| 0 <= i < s.len() ==> is_digit(s[i])
}

pub open spec fn all_hex_digits(s: Seq<u8>) -> bool {
    forall|i: int| 0 <= i < s.len() ==> is_hex_digit(s[i])
}

/// The value of a decimal digit string.
pub open spec fn dec_val(s: Seq<u8>) -> int
    decreases s.len(),
{
    if s.len() == 0 {
        0
    } else {
        dec_val(s.drop_last()) * 10 + (s.last() - 48)
    }
}

/// The value of a hexadecimal digit string.
pub open spec fn hex_val(s: Seq<u8>) -> int
    decreases s.len(),
{
    if s.len() == 0 {
        0
    } else {
        hex_val(s.drop_last()) * 16 + hex_digit_val(s.last())
    }
}

/// One dotted-quad part: one to three decimal digits, no leading zero,
/// value at most 255.
pub open spec fn is_octet(s: Seq<u8>) -> bool {
    1 <= s.len() && s.len() <= 3 && all_digits(s) && (s.len() > 1 ==> s[0] != 48) && dec_val(s)
        <= 255
}

/// One IPv6 group: one to four hexadecimal digits.
pub open spec fn is_group(s: Seq<u8>) -> bool {
    1 <= s.len() && s.len() <= 4 && all_hex_digits(s)
}

/// Splits a byte string on a separator. The result always has one part more
/// than the string has separators; parts may be empty.
pub open spec fn split_on(s: Seq<u8>, sep: u8) -> Seq<Seq<u8>>
    decreases s.len(),
{
    if s.len() == 0 {
        seq![Seq::<u8>::empty()]
    } else {
        let rest = split_on(s.drop_first(), sep);
        if s[0] == sep {
            seq![Seq::<u8>::empty()] + rest
        } else {
            seq![seq![s[0]] + rest[0]] + rest.drop_first()
        }
    }
}

proof fn lemma_split_on_len(s: Seq<u8>, sep: u8)
    ensures
        split_on(s, sep).len() >= 1,
    decreases s.len(),
{
    if s.len() > 0 {
        lemma_split_on_len(s.drop_first(), sep);
    }
}

/// The dotted-quad grammar: four octets separated by dots, packed big-endian.
pub open spec fn spec_parse_v4(s: Seq<u8>) -> Option<IpAddrRepr> {
    let ps = split_on(s, 46);
    if ps.len() == 4 && is_octet(ps[0]) && is_octet(ps[1]) && is_octet(ps[2]) && is_octet(ps[3]) {
        Some(
            IpAddrRepr::V4(
                (dec_val(ps[0]) * 0x1000000 + dec_val(ps[1]) * 0x10000 + dec_val(ps[2]) * 0x100
                    + dec_val(ps[3])) as u32,
            ),
        )
    } else {
        None
    }
}

pub open spec fn all_groups(ps: Seq<Seq<u8>>) -> bool {
    forall|i: int| 0 <= i < ps.len() ==> is_group(ps[i])
}

pub open spec fn group_vals(ps: Seq<Seq<u8>>) -> Seq<int> {
    ps.map_values(|p: Seq<u8>| hex_val(p))
}

pub open spec fn zero_groups(n: int) -> Seq<int> {
    Seq::new(n as nat, |i: int| 0)
}

/// Packs a sequence of 16-bit group values big-endian.
pub open spec fn v6_val(gs: Seq<int>) -> int
    decreases gs.len(),
{
    if gs.len() == 0 {
        0
    } else {
        v6_val(gs.drop_last()) * 0x10000 + gs.last()
    }
}

pub open spec fn has_empty(ps: Seq<Seq<u8>>) -> bool {
    exists|i: int| 0 <= i < ps.len() && ps[i].len() == 0
}

/// The two 16-bit groups that a dotted-quad tail stands for: the last 32
/// bits of the address written as four octets.
pub open spec fn v4_tail_groups(p: Seq<u8>) -> Option<Seq<int>> {
    let qs = split_on(p, 46);
    if qs.len() == 4 && is_octet(qs[0]) && is_octet(qs[1]) && is_octet(qs[2]) && is_octet(qs[3]) {
        Some(
            seq![
                dec_val(qs[0]) * 0x100 + dec_val(qs[1]),
                dec_val(qs[2]) * 0x100 + dec_val(qs[3]),
            ],
        )
    } else {
        None
    }
}

/// The group values of one run of colon-separated parts: hexadecimal groups,
/// except that the final part may be a dotted quad standing for the last two
/// groups. Only a run that ends the address may use the dotted form.
pub open spec fn seg_groups(ps: Seq<Seq<u8>>) -> Option<Seq<int>> {
    if all_groups(ps) {
        Some(group_vals(ps))
    } else if ps.len() >= 1 && all_groups(ps.drop_last()) && v4_tail_groups(ps.last()) is Some {
        Some(group_vals(ps.drop_last()) + v4_tail_groups(ps.last()).unwrap())
    } else {
        None
    }
}

/// The colon-grouped IPv6 grammar: eight hexadecimal groups, with at most one
/// run of zero groups elided as a double colon, and optionally the last two
/// groups written as a dotted quad. Splitting on the colon turns a double
/// colon into an empty part: two leading empties for a double colon at the
/// start, two trailing ones at the end, a single interior empty in the
/// middle, three empties for the bare double colon alone.
pub open spec fn spec_parse_v6(s: Seq<u8>) -> Option<IpAddrRepr> {
    let ps = split_on(s, 58);
    if ps.len() == 3 && ps[0].len() == 0 && ps[1].len() == 0 && ps[2].len() == 0 {
        Some(IpAddrRepr::V6(0))
    } else if ps.len() >= 3 && ps[0].len() == 0 && ps[1].len() == 0 {
        let tail = seg_groups(ps.skip(2));
        if tail is Some && tail.unwrap().len() <= 7 {
            Some(
                IpAddrRepr::V6(
                    v6_val(zero_groups(8 - tail.unwrap().len()) + tail.unwrap()) as u128,
                ),
            )
        } else {
            None
        }
    } else if ps.len() >= 3 && ps[ps.len() - 1].len() == 0 && ps[ps.len() - 2].len() == 0 {
        let head = ps.take(ps.len() - 2);
        if head.len() <= 7 && all_groups(head) {
            Some(IpAddrRepr::V6(v6_val(group_vals(head) + zero_groups(8 - head.len())) as u128))
        } else {
            None
        }
    } else if has_empty(ps) {
        let i = choose|i: int| 0 <= i < ps.len() && ps[i].len() == 0;
        let right = seg_groups(ps.skip(i + 1));
        if 1 <= i && i + 1 < ps.len() && all_groups(ps.take(i)) && right is Some && i
            + right.unwrap().len() <= 7 {
            Some(
                IpAddrRepr::V6(
                    v6_val(
                        group_vals(ps.take(i)) + zero_groups(8 - i - right.unwrap().len())
                            + right.unwrap(),
                    ) as u128,
                ),
            )
        } else {
            None
        }
    } else {
        let gs = seg_groups(ps);
        if gs is Some && gs.unwrap().len() == 8 {
            Some(IpAddrRepr::V6(v6_val(gs.unwrap()) as u128))
        } else {
            None
        }
    }
}

/// The address grammar: a dotted quad, or else a colon-grouped IPv6 address.
/// The two cannot overlap: a dotted quad has no colon and an IPv6 address
/// has at least one.
pub open spec fn spec_parse_ip(s: Seq<u8>) -> Option<IpAddrRepr> {
    if spec_parse_v4(s) is Some {
        spec_parse_v4(s)
    } else {
        spec_parse_v6(s)
    }
}

/// The view of each split part.
pub open spec fn part_views(parts: Seq<Vec<u8>>) -> Seq<Seq<u8>> {
    parts.map_values(|p: Vec<u8>| p@)
}

/// The first part of a split, extended at the front.
spec fn prefix_first(c: Seq<u8>, ps: Seq<Seq<u8>>) -> Seq<Seq<u8>> {
    seq![c + ps[0]] + ps.drop_first()
}

proof fn lemma_split_step(s: Seq<u8>, sep: u8, i: int)
    requires
        0 <= i < s.len(),
    ensures
        s[i] == sep ==> split_on(s.skip(i), sep) == seq![Seq::<u8>::empty()] + split_on(
            s.skip(i + 1),
            sep,
        ),
        s[i] != sep ==> split_on(s.skip(i), sep) == prefix_first(
            seq![s[i]],
            split_on(s.skip(i + 1), sep),
        ),
{
    assert(s.skip(i).len() == s.len() - i);
    assert(s.skip(i)[0] == s[i]);
    assert(s.skip(i).drop_first() =~= s.skip(i + 1));
    lemma_split_on_len(s.skip(i + 1), sep);
    if s[i] != sep {
        let rest = split_on(s.skip(i + 1), sep);
        assert(split_on(s.skip(i), sep) == seq![seq![s[i]] + rest[0]] + rest.drop_first());
    }
}

/// Splits a byte string on a separator, exactly as `split_on` says.
pub fn split_bytes(s: &[u8], sep: u8) -> (parts: Vec<Vec<u8>>)
    ensures
        part_views(parts@) == split_on(s@, sep),
{
    let ghost whole = split_on(s@, sep);
    proof {
        lemma_split_on_len(s@, sep);
    }
    let mut finished: Vec<Vec<u8>> = Vec::new();
    let mut cur: Vec<u8> = Vec::new();
    let mut i: usize = 0;
    proof {
        assert(s@.skip(0) =~= s@);
        assert(part_views(finished@) =~= Seq::<Seq<u8>>::empty());
        assert(prefix_first(cur@, whole) =~~= whole);
    }
    while i < s.len()
        invariant
            0 <= i <= s@.len(),
            whole == split_on(s@, sep),
            split_on(s@.skip(i as int), sep).len() >= 1,
            whole == part_views(finished@) + prefix_first(cur@, split_on(s@.skip(i as int), sep)),
        decreases s@.len() - i,
    {
        proof {
            lemma_split_step(s@, sep, i as int);
            lemma_split_on_len(s@.skip(i as int + 1), sep);
        }
        let ghost old_finished = finished@;
        let ghost old_cur = cur@;
        let c = s[i];
        if c == sep {
            let done = cur;
            cur = Vec::new();
            finished.push(done);
            proof {
                let rest = split_on(s@.skip(i as int + 1), sep);
                assert(part_views(finished@) =~~= part_views(old_finished) + seq![old_cur]);
                assert(prefix_first(old_cur, seq![Seq::<u8>::empty()] + rest) =~~= seq![old_cur]
                    + prefix_first(Seq::<u8>::empty(), rest));
                assert(prefix_first(Seq::<u8>::empty(), rest) =~~= rest);
                assert(whole =~~= part_views(finished@) + prefix_first(
                    cur@,
                    split_on(s@.skip(i as int + 1), sep),
                ));
            }
        } else {
            cur.push(c);
            proof {
                let rest = split_on(s@.skip(i as int + 1), sep);
                assert(prefix_first(old_cur, prefix_first(seq![c], rest)) =~~= prefix_first(
                    old_cur + seq![c],
                    rest,
                ));
                assert(cur@ =~= old_cur + seq![c]);
                assert(whole =~~= part_views(finished@) + prefix_first(
                    cur@,
                    split_on(s@.skip(i as int + 1), sep),
                ));
            }
        }
        i += 1;
    }
    proof {
        assert(s@.skip(i as int) =~= Seq::<u8>::empty());
        assert(split_on(s@.skip(i as int), sep) == seq![Seq::<u8>::empty()]);
        assert(prefix_first(cur@, seq![Seq::<u8>::empty()]) =~~= seq![cur@]);
    }
    finished.push(cur);
    proof {
        assert(part_views(finished@) =~~= whole);
    }
    finished
}

proof fn lemma_dec_val_bounds(s: Seq<u8>)
    requires
        all_digits(s),
    ensures
        0 <= dec_val(s),
        s.len() <= 1 ==> dec_val(s) <= 9,
        s.len() <= 2 ==> dec_val(s) <= 99,
        s.len() <= 3 ==> dec_val(s) <= 999,
    decreases s.len(),
{
    if s.len() > 0 {
        assert(all_digits(s.drop_last()));
        lemma_dec_val_bounds(s.drop_last());
    }
}

proof fn lemma_hex_val_bounds(s: Seq<u8>)
    requires
        all_hex_digits(s),
    ensures
        0 <= hex_val(s),
        s.len() <= 1 ==> hex_val(s) <= 0xf,
        s.len() <= 2 ==> hex_val(s) <= 0xff,
        s.len() <= 3 ==> hex_val(s) <= 0xfff,
        s.len() <= 4 ==> hex_val(s) <= 0xffff,
    decreases s.len(),
{
    if s.len() > 0 {
        assert(all_hex_digits(s.drop_last()));
        lemma_hex_val_bounds(s.drop_last());
        assert(is_hex_digit(s.last()));
        assert(0 <= hex_digit_val(s.last()) <= 15);
    }
}

/// Parses one dotted-quad part.
fn parse_octet(p: &Vec<u8>) -> (r: Option<u8>)
    ensures
        (r is Some) <==> is_octet(p@),
        r matches Some(v) ==> v as int == dec_val(p@),
{
    let n = p.len();
    if n < 1 || n > 3 {
        return None;
    }
    if n > 1 && p[0] == 48 {
        return None;
    }
    let mut val: u32 = 0;
    let mut j: usize = 0;
    while j < n
        invariant
            0 <= j <= n,
            n == p@.len(),
            1 <= n <= 3,
            all_digits(p@.take(j as int)),
            val as int == dec_val(p@.take(j as int)),
            val <= 999,
        decreases n - j,
    {
        let c = p[j];
        if c < 48 || c > 57 {
            assert(!is_digit(p@[j as int]));
            return None;
        }
        proof {
            lemma_dec_val_bounds(p@.take(j as int));
            assert(p@.take(j as int + 1).drop_last() =~= p@.take(j as int));
            assert(p@.take(j as int + 1).last() == p@[j as int]);
        }
        val = val * 10 + (c - 48) as u32;
        j += 1;
    }
    proof {
        assert(p@.take(n as int) =~= p@);
    }
    if val > 255 {
        return None;
    }
    Some(val as u8)
}

/// Parses one IPv6 group.
fn parse_group(p: &Vec<u8>) -> (r: Option<u16>)
    ensures
        (r is Some) <==> is_group(p@),
        r matches Some(v) ==> v as int == hex_val(p@),
{
    let n = p.len();
    if n < 1 || n > 4 {
        return None;
    }
    let mut val: u16 = 0;
    let mut j: usize = 0;
    while j < n
        invariant
            0 <= j <= n,
            n == p@.len(),
            1 <= n <= 4,
            all_hex_digits(p@.take(j as int)),
            val as int == hex_val(p@.take(j as int)),
            val <= 0xffff,
        decreases n - j,
    {
        let c = p[j];
        let d: u16 = if 48 <= c && c <= 57 {
            (c - 48) as u16
        } else if 97 <= c && c <= 102 {
            (c - 87) as u16
        } else if 65 <= c && c <= 70 {
            (c - 55) as u16
        } else {
            assert(!is_hex_digit(p@[j as int]));
            return None;
        };
        proof {
            lemma_hex_val_bounds(p@.take(j as int));
            assert(p@.take(j as int + 1).drop_last() =~= p@.take(j as int));
            assert(p@.take(j as int + 1).last() == p@[j as int]);
            assert(d as int == hex_digit_val(p@[j as int]));
        }
        val = val * 16 + d;
        j += 1;
    }
    proof {
        assert(p@.take(n as int) =~= p@);
    }
    Some(val)
}

/// Parses a dotted quad, exactly as `spec_parse_v4` says.
pub fn parse_v4(s: &[u8]) -> (r: Option<IpAddrRepr>)
    ensures
        r == spec_parse_v4(s@),
{
    let parts = split_bytes(s, 46);
    let ghost ps = split_on(s@, 46);
    proof {
        assert(ps.len() == parts@.len());
        assert(forall|k: int| 0 <= k < ps.len() ==> ps[k] == parts@[k]@);
    }
    if parts.len() != 4 {
        return None;
    }
    let a = match parse_octet(&parts[0]) {
        Some(v) => v,
        None => {
            return None;
        },
    };
    let b = match parse_octet(&parts[1]) {
        Some(v) => v,
        None => {
            return None;
        },
    };
    let c = match parse_octet(&parts[2]) {
        Some(v) => v,
        None => {
            return None;
        },
    };
    let d = match parse_octet(&parts[3]) {
        Some(v) => v,
        None => {
            return None;
        },
    };
    let v: u32 = (a as u32) * 0x1000000 + (b as u32) * 0x10000 + (c as u32) * 0x100 + (d as u32);
    Some(IpAddrRepr::V4(v))
}

/// The values of a sequence of 16-bit groups.
pub open spec fn int_vals(gs: Seq<u16>) -> Seq<int> {
    gs.map_values(|g: u16| g as int)
}

/// A run of zero-valued 16-bit groups.
pub open spec fn zeros16(n: int) -> Seq<u16> {
    Seq::new(n as nat, |i: int| 0u16)
}

/// An upper bound for `v6_val` over `n` groups.
pub open spec fn group_bound(n: int) -> int
    decreases n,
{
    if n <= 0 {
        1
    } else {
        group_bound(n - 1) * 0x10000
    }
}

proof fn lemma_group_bound_8()
    ensures
        group_bound(8) == 0x100000000000000000000000000000000,
{
    assert(group_bound(0) == 1);
    assert(group_bound(1) == 0x10000);
    assert(group_bound(2) == 0x100000000);
    assert(group_bound(3) == 0x1000000000000);
    assert(group_bound(4) == 0x10000000000000000);
    assert(group_bound(5) == 0x100000000000000000000);
    assert(group_bound(6) == 0x1000000000000000000000000);
    assert(group_bound(7) == 0x10000000000000000000000000000);
}

proof fn lemma_group_bound_pos(n: int)
    ensures
        group_bound(n) >= 1,
    decreases n,
{
    if n > 0 {
        lemma_group_bound_pos(n - 1);
    }
}

proof fn lemma_group_bound_mono(a: int, b: int)
    requires
        a <= b,
    ensures
        group_bound(a) <= group_bound(b),
        group_bound(a) >= 1,
    decreases b - a,
{
    lemma_group_bound_pos(a);
    if a < b {
        lemma_group_bound_mono(a, b - 1);
        lemma_group_bound_pos(b - 1);
    }
}

proof fn lemma_v6_val_bound(gs: Seq<int>)
    requires
        forall|i: int| 0 <= i < gs.len() ==> 0 <= #[trigger] gs[i] < 0x10000,
    ensures
        0 <= v6_val(gs) < group_bound(gs.len() as int),
    decreases gs.len(),
{
    if gs.len() == 0 {
    } else {
        lemma_v6_val_bound(gs.drop_last());
        assert(group_bound(gs.len() as int) == group_bound(gs.len() - 1) * 0x10000);
    }
}

/// Packs eight 16-bit groups big-endian into one 128-bit value.
fn pack_groups(gv: &Vec<u16>) -> (r: u128)
    requires
        gv@.len() == 8,
    ensures
        r as int == v6_val(int_vals(gv@)),
{
    let ghost all = int_vals(gv@);
    let mut acc: u128 = 0;
    let mut t: usize = 0;
    while t < 8
        invariant
            0 <= t <= 8,
            gv@.len() == 8,
            all == int_vals(gv@),
            acc as int == v6_val(all.take(t as int)),
        decreases 8 - t,
    {
        proof {
            assert(forall|i: int| 0 <= i < all.len() ==> 0 <= #[trigger] all[i] < 0x10000);
            assert(forall|i: int| 0 <= i < t ==> 0 <= #[trigger] all.take(t as int)[i] < 0x10000);
            lemma_v6_val_bound(all.take(t as int));
            lemma_group_bound_mono(t as int, 7);
            lemma_group_bound_8();
            assert(group_bound(7) * 0x10000 == group_bound(8));
            assert(all.take(t as int + 1).drop_last() =~= all.take(t as int));
            assert(all.take(t as int + 1).last() == all[t as int]);
            assert(all[t as int] == gv@[t as int] as int);
        }
        acc = acc * 0x10000 + (gv[t] as u128);
        t += 1;
    }
    proof {
        assert(all.take(8) =~= all);
    }
    acc
}

/// Appends a copy of every element of `src`.
fn extend_groups(dst: &mut Vec<u16>, src: &Vec<u16>)
    ensures
        final(dst)@ == old(dst)@ + src@,
{
    let mut a: usize = 0;
    while a < src.len()
        invariant
            0 <= a <= src@.len(),
            dst@ == old(dst)@ + src@.take(a as int),
        decreases src@.len() - a,
    {
        dst.push(src[a]);
        proof {
            assert(old(dst)@ + src@.take(a as int + 1) =~= (old(dst)@ + src@.take(a as int)).push(
                src@[a as int],
            ));
        }
        a += 1;
    }
    proof {
        assert(src@.take(src@.len() as int) =~= src@);
    }
}

/// Appends `count` zero groups.
fn push_zero_groups(dst: &mut Vec<u16>, count: usize)
    ensures
        final(dst)@ == old(dst)@ + zeros16(count as int),
{
    let mut z: usize = 0;
    while z < count
        invariant
            0 <= z <= count,
            dst@ == old(dst)@ + zeros16(z as int),
        decreases count - z,
    {
        dst.push(0);
        proof {
            assert(old(dst)@ + zeros16(z as int + 1) =~= (old(dst)@ + zeros16(z as int)).push(
                0u16,
            ));
        }
        z += 1;
    }
}

/// Parses the parts in `from..to` as IPv6 groups.
fn parse_group_range(parts: &Vec<Vec<u8>>, from: usize, to: usize) -> (r: Option<Vec<u16>>)
    requires
        from <= to <= parts@.len(),
    ensures
        (r is Some) <==> all_groups(part_views(parts@).subrange(from as int, to as int)),
        r matches Some(v) ==> v@.len() == to - from && int_vals(v@) == group_vals(
            part_views(parts@).subrange(from as int, to as int),
        ),
{
    let ghost ps = part_views(parts@);
    let ghost want = ps.subrange(from as int, to as int);
    let mut out: Vec<u16> = Vec::new();
    let mut j: usize = from;
    while j < to
        invariant
            from <= j <= to <= parts@.len(),
            ps == part_views(parts@),
            want == ps.subrange(from as int, to as int),
            out@.len() == j - from,
            forall|k: int| 0 <= k < j - from ==> is_group(#[trigger] want[k]),
            forall|k: int| 0 <= k < j - from ==> (#[trigger] out@[k]) as int == hex_val(want[k]),
        decreases to - j,
    {
        match parse_group(&parts[j]) {
            Some(v) => {
                proof {
                    assert(want[j - from as int] == ps[j as int]);
                    assert(ps[j as int] == parts@[j as int]@);
                }
                out.push(v);
            },
            None => {
                proof {
                    assert(want[j - from as int] == parts@[j as int]@);
                    assert(!is_group(want[j - from as int]));
                }
                return None;
            },
        }
        j += 1;
    }
    proof {
        assert(forall|k: int| 0 <= k < want.len() ==> is_group(#[trigger] want[k]));
        assert forall|k: int| 0 <= k < want.len() implies int_vals(out@)[k] == group_vals(
            want,
        )[k] by {
            assert(int_vals(out@)[k] == out@[k] as int);
            assert(group_vals(want)[k] == hex_val(want[k]));
        };
        assert(int_vals(out@) =~= group_vals(want));
    }
    Some(out)
}

/// Parses one dotted-quad tail into its two 16-bit groups.
fn parse_v4_tail(p: &Vec<u8>) -> (r: Option<Vec<u16>>)
    ensures
        (r is Some) <==> v4_tail_groups(p@) is Some,
        r matches Some(v) ==> v@.len() == 2 && int_vals(v@) == v4_tail_groups(p@).unwrap(),
{
    let qs = split_bytes(p.as_slice(), 46);
    let ghost qv = split_on(p@, 46);
    proof {
        assert(qv.len() == qs@.len());
        assert(forall|k: int| 0 <= k < qv.len() ==> qv[k] == qs@[k]@);
    }
    if qs.len() != 4 {
        return None;
    }
    let a = match parse_octet(&qs[0]) {
        Some(v) => v,
        None => {
            return None;
        },
    };
    let b = match parse_octet(&qs[1]) {
        Some(v) => v,
        None => {
            return None;
        },
    };
    let c = match parse_octet(&qs[2]) {
        Some(v) => v,
        None => {
            return None;
        },
    };
    let d = match parse_octet(&qs[3]) {
        Some(v) => v,
        None => {
            return None;
        },
    };
    let mut out: Vec<u16> = Vec::new();
    out.push((a as u16) * 0x100 + (b as u16));
    out.push((c as u16) * 0x100 + (d as u16));
    proof {
        assert(int_vals(out@) =~= v4_tail_groups(p@).unwrap());
    }
    Some(out)
}

/// A run with an empty part is no run of groups: an empty part is neither a
/// hexadecimal group nor a dotted quad.
proof fn lemma_seg_groups_empty_part(ps: Seq<Seq<u8>>, j: int)
    requires
        0 <= j < ps.len(),
        ps[j].len() == 0,
    ensures
        seg_groups(ps) is None,
{
    assert(!is_group(ps[j]));
    assert(!all_groups(ps));
    if j < ps.len() - 1 {
        assert(ps.drop_last()[j] == ps[j]);
        assert(!all_groups(ps.drop_last()));
    } else {
        assert(ps.last() =~= Seq::<u8>::empty());
        assert(split_on(ps.last(), 46) =~= seq![Seq::<u8>::empty()]);
        assert(v4_tail_groups(ps.last()) is None);
    }
}

/// Parses the parts in `from..to` as one run of groups, with an optional
/// dotted-quad tail.
fn parse_segment(parts: &Vec<Vec<u8>>, from: usize, to: usize) -> (r: Option<Vec<u16>>)
    requires
        from <= to <= parts@.len(),
    ensures
        (r is Some) <==> seg_groups(part_views(parts@).subrange(from as int, to as int)) is Some,
        r matches Some(v) ==> int_vals(v@) == seg_groups(
            part_views(parts@).subrange(from as int, to as int),
        ).unwrap(),
{
    let ghost ps = part_views(parts@);
    let ghost seg = ps.subrange(from as int, to as int);
    if from == to {
        let out: Vec<u16> = Vec::new();
        proof {
            assert(seg =~= Seq::<Seq<u8>>::empty());
            assert(all_groups(seg));
            assert(int_vals(out@) =~= group_vals(seg));
        }
        return Some(out);
    }
    let prefix = match parse_group_range(parts, from, to - 1) {
        Some(v) => v,
        None => {
            proof {
                assert(seg.drop_last() =~= ps.subrange(from as int, to as int - 1));
                if all_groups(seg) {
                    assert forall|k: int| 0 <= k < seg.drop_last().len() implies is_group(
                        #[trigger] seg.drop_last()[k],
                    ) by {
                        assert(seg.drop_last()[k] == seg[k]);
                    }
                }
            }
            return None;
        },
    };
    let ghost prefix_view = prefix@;
    proof {
        assert(seg.drop_last() =~= ps.subrange(from as int, to as int - 1));
        assert(seg.last() == ps[to as int - 1]);
        assert(ps[to as int - 1] == parts@[to as int - 1]@);
    }
    match parse_group(&parts[to - 1]) {
        Some(g) => {
            let mut out = prefix;
            out.push(g);
            proof {
                assert(is_group(seg.last()));
                assert forall|k: int| 0 <= k < seg.len() implies is_group(#[trigger] seg[k]) by {
                    if k < seg.len() - 1 {
                        assert(seg[k] == seg.drop_last()[k]);
                    }
                }
                assert(all_groups(seg));
                assert forall|k: int| 0 <= k < out@.len() implies int_vals(out@)[k] == group_vals(
                    seg,
                )[k] by {
                    if k < out@.len() - 1 {
                        assert(int_vals(out@)[k] == int_vals(prefix_view)[k]);
                        assert(group_vals(seg)[k] == hex_val(seg[k]));
                        assert(seg[k] == seg.drop_last()[k]);
                    }
                }
                assert(int_vals(out@) =~= group_vals(seg));
            }
            Some(out)
        },
        None => {
            proof {
                assert(!is_group(seg.last()));
                assert(!all_groups(seg));
            }
            match parse_v4_tail(&parts[to - 1]) {
                Some(two) => {
                    let ghost two_view = two@;
                    let mut out = prefix;
                    extend_groups(&mut out, &two);
                    proof {
                        let want = group_vals(seg.drop_last()) + v4_tail_groups(
                            seg.last(),
                        ).unwrap();
                        assert forall|k: int| 0 <= k < out@.len() implies int_vals(out@)[k]
                            == want[k] by {
                            if k < prefix_view.len() {
                                assert(int_vals(out@)[k] == int_vals(prefix_view)[k]);
                            } else {
                                assert(int_vals(out@)[k] == int_vals(two_view)[k
                                    - prefix_view.len()]);
                            }
                        }
                        assert(int_vals(out@) =~= want);
                    }
                    Some(out)
                },
                None => {
                    None
                },
            }
        },
    }
}

/// Parses a colon-grouped IPv6 address, exactly as `spec_parse_v6` says.
pub fn parse_v6(s: &[u8]) -> (r: Option<IpAddrRepr>)
    ensures
        r == spec_parse_v6(s@),
{
    let parts = split_bytes(s, 58);
    let ghost ps = split_on(s@, 58);
    proof {
        assert(ps.len() == parts@.len());
        assert(forall|k: int| 0 <= k < ps.len() ==> ps[k] == parts@[k]@);
        lemma_split_on_len(s@, 58);
    }
    let n = parts.len();
    if n == 3 && parts[0].len() == 0 && parts[1].len() == 0 && parts[2].len() == 0 {
        return Some(IpAddrRepr::V6(0));
    }
    if n >= 3 && parts[0].len() == 0 && parts[1].len() == 0 {
        proof {
            assert(ps.skip(2) =~= part_views(parts@).subrange(2, n as int));
        }
        match parse_segment(&parts, 2, n) {
            Some(vals) => {
                if vals.len() > 7 {
                    return None;
                }
                let mut gv: Vec<u16> = Vec::new();
                push_zero_groups(&mut gv, 8 - vals.len());
                extend_groups(&mut gv, &vals);
                proof {
                    assert(gv@.len() == 8);
                    assert(int_vals(gv@) =~= zero_groups(8 - seg_groups(ps.skip(2)).unwrap().len())
                        + seg_groups(ps.skip(2)).unwrap());
                    assert(forall|i: int|
                        0 <= i < int_vals(gv@).len() ==> 0 <= #[trigger] int_vals(gv@)[i]
                            < 0x10000);
                    lemma_v6_val_bound(int_vals(gv@));
                    lemma_group_bound_8();
                }
                let packed = pack_groups(&gv);
                return Some(IpAddrRepr::V6(packed));
            },
            None => {
                return None;
            },
        }
    }
    if n >= 3 && parts[n - 1].len() == 0 && parts[n - 2].len() == 0 {
        let ghost head = ps.take(n - 2 as int);
        proof {
            assert(head =~= part_views(parts@).subrange(0, n - 2 as int));
        }
        if n - 2 > 7 {
            return None;
        }
        match parse_group_range(&parts, 0, n - 2) {
            Some(vals) => {
                let mut gv: Vec<u16> = Vec::new();
                extend_groups(&mut gv, &vals);
                push_zero_groups(&mut gv, 8 - (n - 2));
                proof {
                    assert(gv@.len() == 8);
                    assert(int_vals(gv@) =~= group_vals(head) + zero_groups(8 - head.len()));
                    assert(forall|i: int|
                        0 <= i < int_vals(gv@).len() ==> 0 <= #[trigger] int_vals(gv@)[i]
                            < 0x10000);
                    lemma_v6_val_bound(int_vals(gv@));
                    lemma_group_bound_8();
                }
                let packed = pack_groups(&gv);
                return Some(IpAddrRepr::V6(packed));
            },
            None => {
                return None;
            },
        }
    }
    // scan for empty parts: their count, and the first and second position
    let mut empty_count: usize = 0;
    let mut first_e: usize = 0;
    let mut second_e: usize = 0;
    let mut j: usize = 0;
    while j < n
        invariant
            0 <= j <= n,
            n == parts@.len(),
            ps == part_views(parts@),
            empty_count <= j,
            empty_count == 0 ==> forall|t: int| 0 <= t < j ==> ps[t].len() != 0,
            empty_count >= 1 ==> 0 <= first_e < j && ps[first_e as int].len() == 0,
            empty_count == 1 ==> forall|t: int|
                0 <= t < j && t != first_e ==> ps[t].len() != 0,
            empty_count >= 2 ==> first_e < second_e < j && ps[second_e as int].len() == 0,
        decreases n - j,
    {
        if parts[j].len() == 0 {
            if empty_count == 0 {
                first_e = j;
            } else if empty_count == 1 {
                second_e = j;
            }
            empty_count += 1;
        }
        j += 1;
    }
    if empty_count == 0 {
        proof {
            assert(!has_empty(ps));
            assert(ps.subrange(0, n as int) =~= ps);
        }
        match parse_segment(&parts, 0, n) {
            Some(vals) => {
                if vals.len() != 8 {
                    return None;
                }
                proof {
                    assert(forall|i: int|
                        0 <= i < int_vals(vals@).len() ==> 0 <= #[trigger] int_vals(vals@)[i]
                            < 0x10000);
                }
                let packed = pack_groups(&vals);
                return Some(IpAddrRepr::V6(packed));
            },
            None => {
                return None;
            },
        }
    }
    proof {
        assert(has_empty(ps));
    }
    let ghost ci = choose|i: int| 0 <= i < ps.len() && ps[i].len() == 0;
    if empty_count >= 2 {
        proof {
            assert(ps[ci].len() == 0);
            let e: int = if first_e as int != ci {
                first_e as int
            } else {
                second_e as int
            };
            assert(e != ci && 0 <= e < ps.len() && ps[e].len() == 0);
            if 1 <= ci && ci + 1 < ps.len() {
                if e < ci {
                    assert(ps.take(ci)[e].len() == 0);
                    assert(!all_groups(ps.take(ci)));
                } else {
                    assert(ps.skip(ci + 1)[e - ci - 1].len() == 0);
                    lemma_seg_groups_empty_part(ps.skip(ci + 1), e - ci - 1);
                }
            }
        }
        return None;
    }
    // exactly one empty part, at first_e
    proof {
        assert(ps[ci].len() == 0);
        assert(ci == first_e as int);
    }
    let i = first_e;
    if !(1 <= i && i + 1 < n) {
        return None;
    }
    let ghost left_ps = ps.take(i as int);
    let ghost right_ps = ps.skip(i as int + 1);
    proof {
        assert(left_ps =~= ps.subrange(0, i as int));
        assert(right_ps =~= ps.subrange(i as int + 1, n as int));
    }
    let left = match parse_group_range(&parts, 0, i) {
        Some(v) => v,
        None => {
            return None;
        },
    };
    let right = match parse_segment(&parts, i + 1, n) {
        Some(v) => v,
        None => {
            return None;
        },
    };
    if i + right.len() > 7 {
        return None;
    }
    let mut gv: Vec<u16> = Vec::new();
    extend_groups(&mut gv, &left);
    push_zero_groups(&mut gv, 8 - i - right.len());
    extend_groups(&mut gv, &right);
    proof {
        assert(gv@.len() == 8);
        assert(int_vals(gv@) =~= group_vals(left_ps) + zero_groups(
            8 - i - seg_groups(right_ps).unwrap().len(),
        ) + seg_groups(right_ps).unwrap());
        assert(forall|i: int|
            0 <= i < int_vals(gv@).len() ==> 0 <= #[trigger] int_vals(gv@)[i] < 0x10000);
        lemma_v6_val_bound(int_vals(gv@));
        lemma_group_bound_8();
    }
    let packed = pack_groups(&gv);
    Some(IpAddrRepr::V6(packed))
}

/// Parses an address string: a dotted quad, or else an IPv6 literal.
pub fn parse_ip(s: &[u8]) -> (r: Option<IpAddrRepr>)
    ensures
        r == spec_parse_ip(s@),
{
    let v4 = parse_v4(s);
    match v4 {
        Some(v) => Some(v),
        None => parse_v6(s),
    }
}

} // verus!
