//! Textual forms of numbers and IP addresses, as ASCII bytes.

use vstd::prelude::*;

verus! {

/// The ASCII character of one digit below sixteen, letters in lower case.
pub open spec fn digit_byte(d: nat) -> u8 {
    if d < 10 {
        (48 + d) as u8
    } else {
        (87 + d) as u8
    }
}

/// The digits of `n`, most significant first, with no leading zero (a single
/// `0` for zero): in base sixteen where `hex` is set, in base ten otherwise.
pub open spec fn digits(n: nat, hex: bool) -> Seq<u8>
    decreases n,
{
    if hex {
        if n < 16 {
            seq![digit_byte(n)]
        } else {
            digits(n / 16, hex).push(digit_byte(n % 16))
        }
    } else {
        if n < 10 {
            seq![digit_byte(n)]
        } else {
            digits(n / 10, hex).push(digit_byte(n % 10))
        }
    }
}

/// The groups written as numbers and joined by `sep`.
pub open spec fn joined(groups: Seq<u16>, hex: bool, sep: u8) -> Seq<u8>
    decreases groups.len(),
{
    if groups.len() == 0 {
        Seq::<u8>::empty()
    } else if groups.len() == 1 {
        digits(groups[0] as nat, hex)
    } else {
        joined(groups.drop_last(), hex, sep).push(sep) + digits(groups.last() as nat, hex)
    }
}

/// A byte that occurs in the text of an address: a digit, one of the letters
/// `a` to `f`, a dot or a colon.
pub open spec fn is_address_byte(b: u8) -> bool {
    (48 <= b <= 57) || (97 <= b <= 102) || b == 46 || b == 58
}

/// Whether a text is made of address bytes only.
pub open spec fn is_address_text(s: Seq<u8>) -> bool {
    forall|i: int| 0 <= i < s.len() ==> is_address_byte(#[trigger] s[i])
}

/// A number is written with at least one digit and with address bytes only.
pub proof fn lemma_digits_bytes(n: nat, hex: bool)
    ensures
        digits(n, hex).len() >= 1,
        is_address_text(digits(n, hex)),
    decreases n,
{
    if hex {
        if n >= 16 {
            lemma_digits_bytes(n / 16, hex);
        }
    } else {
        if n >= 10 {
            lemma_digits_bytes(n / 10, hex);
        }
    }
}

/// Groups joined by a dot or a colon are written with address bytes only.
pub proof fn lemma_joined_bytes(groups: Seq<u16>, hex: bool, sep: u8)
    requires
        sep == 46 || sep == 58,
    ensures
        is_address_text(joined(groups, hex, sep)),
    decreases groups.len(),
{
    if groups.len() == 1 {
        lemma_digits_bytes(groups[0] as nat, hex);
    } else if groups.len() > 1 {
        lemma_joined_bytes(groups.drop_last(), hex, sep);
        lemma_digits_bytes(groups.last() as nat, hex);
        let head = joined(groups.drop_last(), hex, sep).push(sep);
        let tail = digits(groups.last() as nat, hex);
        assert forall|i: int| 0 <= i < (head + tail).len() implies is_address_byte(
            #[trigger] (head + tail)[i],
        ) by {
            if i < head.len() - 1 {
                assert((head + tail)[i] == joined(groups.drop_last(), hex, sep)[i]);
            } else if i == head.len() - 1 {
                assert((head + tail)[i] == sep);
            } else {
                assert((head + tail)[i] == tail[i - head.len()]);
            }
        }
    }
}

/// Whether a text holds no colon.
pub open spec fn has_no_colon(s: Seq<u8>) -> bool {
    forall|i: int| 0 <= i < s.len() ==> #[trigger] s[i] != 58
}

/// Whether a text holds a colon at two places or more.
pub open spec fn has_two_colons(s: Seq<u8>) -> bool {
    exists|i: int, j: int| 0 <= i < j < s.len() && #[trigger] s[i] == 58 && #[trigger] s[j] == 58
}

/// A number is written without a colon.
pub proof fn lemma_digits_no_colon(n: nat, hex: bool)
    ensures
        has_no_colon(digits(n, hex)),
    decreases n,
{
    if hex {
        if n >= 16 {
            lemma_digits_no_colon(n / 16, hex);
        }
    } else {
        if n >= 10 {
            lemma_digits_no_colon(n / 10, hex);
        }
    }
}

/// Groups joined by dots are written without a colon.
pub proof fn lemma_dotted_no_colon(groups: Seq<u16>, hex: bool)
    ensures
        has_no_colon(joined(groups, hex, 46u8)),
    decreases groups.len(),
{
    if groups.len() == 1 {
        lemma_digits_no_colon(groups[0] as nat, hex);
    } else if groups.len() > 1 {
        lemma_dotted_no_colon(groups.drop_last(), hex);
        lemma_digits_no_colon(groups.last() as nat, hex);
        let head = joined(groups.drop_last(), hex, 46u8).push(46u8);
        let tail = digits(groups.last() as nat, hex);
        assert forall|i: int| 0 <= i < (head + tail).len() implies #[trigger] (head + tail)[i]
            != 58 by {
            if i < head.len() - 1 {
                assert((head + tail)[i] == joined(groups.drop_last(), hex, 46u8)[i]);
            } else if i == head.len() - 1 {
                assert((head + tail)[i] == 46u8);
            } else {
                assert((head + tail)[i] == tail[i - head.len()]);
            }
        }
    }
}

/// How many groups in a row are zero, from `start` on.
pub open spec fn run_len(groups: Seq<u16>, start: int) -> nat
    decreases groups.len() - start,
{
    if start < 0 || start >= groups.len() || groups[start] != 0 {
        0
    } else {
        1 + run_len(groups, start + 1)
    }
}

/// Where, among the first `upto` places, the longest run of zero groups
/// starts; the first such place where several runs are as long.
pub open spec fn longest_run_start(groups: Seq<u16>, upto: int) -> int
    decreases upto,
{
    if upto <= 1 {
        0
    } else {
        let before = longest_run_start(groups, upto - 1);
        if run_len(groups, upto - 1) > run_len(groups, before) {
            upto - 1
        } else {
            before
        }
    }
}

/// Whether eight groups hold a version-four address behind the mapping
/// prefix: five zero groups and one group of ones.
pub open spec fn is_mapped(groups: Seq<u16>) -> bool {
    &&& groups[0] == 0
    &&& groups[1] == 0
    &&& groups[2] == 0
    &&& groups[3] == 0
    &&& groups[4] == 0
    &&& groups[5] == 0xffff
}

/// The text in front of a mapped version-four address: `::ffff:`.
pub open spec fn mapped_prefix() -> Seq<u8> {
    seq![58u8, 58u8, 102u8, 102u8, 102u8, 102u8, 58u8]
}

/// The four octets that the last two groups hold.
pub open spec fn mapped_octets(groups: Seq<u16>) -> Seq<u16> {
    seq![groups[6] / 256, groups[6] % 256, groups[7] / 256, groups[7] % 256]
}

/// The text of a version-six address of eight groups: lower-case
/// hexadecimal groups without leading zeros, separated by colons, the
/// longest run of two or more zero groups (the first of them, where several
/// are as long) left out for a double colon; a mapped version-four address
/// is written in dotted decimal behind `::ffff:`.
pub open spec fn v6_text(groups: Seq<u16>) -> Seq<u8> {
    if is_mapped(groups) {
        mapped_prefix() + joined(mapped_octets(groups), false, 46u8)
    } else {
        let start = longest_run_start(groups, groups.len() as int);
        let len = run_len(groups, start);
        if len >= 2 {
            joined(groups.subrange(0, start), true, 58u8).push(58u8).push(58u8) + joined(
                groups.subrange(start + len, groups.len() as int),
                true,
                58u8,
            )
        } else {
            joined(groups, true, 58u8)
        }
    }
}

/// The text of a version-six address holds two colons or more.
pub proof fn lemma_v6_text_two_colons(groups: Seq<u16>)
    requires
        groups.len() == 8,
    ensures
        has_two_colons(v6_text(groups)),
{
    let text = v6_text(groups);
    if is_mapped(groups) {
        let tail = joined(mapped_octets(groups), false, 46u8);
        assert(text == mapped_prefix() + tail);
        assert(text[0] == 58 && text[1] == 58);
    } else {
        let start = longest_run_start(groups, groups.len() as int);
        let len = run_len(groups, start);
        if len >= 2 {
            let head = joined(groups.subrange(0, start), true, 58u8);
            let front = head.push(58u8).push(58u8);
            let tail = joined(groups.subrange(start + len, groups.len() as int), true, 58u8);
            assert(text == front + tail);
            assert(text[head.len() as int] == 58 && text[head.len() as int + 1] == 58);
        } else {
            let seven = groups.drop_last();
            let six = seven.drop_last();
            let j6 = joined(six, true, 58u8);
            let j7 = joined(seven, true, 58u8);
            lemma_digits_bytes(seven.last() as nat, true);
            assert(j7 == j6.push(58u8) + digits(seven.last() as nat, true));
            assert(text == j7.push(58u8) + digits(groups.last() as nat, true));
            assert(j7[j6.len() as int] == 58);
            assert(text[j6.len() as int] == 58 && text[j7.len() as int] == 58);
        }
    }
}

/// An IP address, held by its numbers.
#[derive(Debug, Clone, Copy, PartialEq, Eq, Hash)]
pub enum IpAddress {
    /// Four octets, first one first.
    V4 { octets: [u8; 4] },
    /// Eight sixteen-bit groups, first one first.
    V6 { groups: [u16; 8] },
}

/// The four octets as groups of an address text.
pub open spec fn octet_groups(octets: Seq<u8>) -> Seq<u16> {
    seq![octets[0] as u16, octets[1] as u16, octets[2] as u16, octets[3] as u16]
}

impl IpAddress {
    /// The address as text: dotted decimal for version four, the shortened
    /// colon form for version six.
    pub open spec fn text(self) -> Seq<u8> {
        match self {
            IpAddress::V4 { octets } => joined(octet_groups(octets@), false, 46u8),
            IpAddress::V6 { groups } => v6_text(groups@),
        }
    }

    /// The text of an address holds address bytes only.
    pub proof fn lemma_text_bytes(self)
        ensures
            is_address_text(self.text()),
    {
        match self {
            IpAddress::V4 { octets } => lemma_joined_bytes(octet_groups(octets@), false, 46u8),
            IpAddress::V6 { groups } => {
                let g = groups@;
                if is_mapped(g) {
                    lemma_joined_bytes(mapped_octets(g), false, 46u8);
                    let tail = joined(mapped_octets(g), false, 46u8);
                    assert forall|i: int| 0 <= i < (mapped_prefix() + tail).len() implies is_address_byte(
                    #[trigger] (mapped_prefix() + tail)[i]) by {
                        if i >= 7 {
                            assert((mapped_prefix() + tail)[i] == tail[i - 7]);
                        }
                    }
                } else {
                    let start = longest_run_start(g, g.len() as int);
                    let len = run_len(g, start);
                    if len >= 2 {
                        let head = joined(g.subrange(0, start), true, 58u8);
                        let tail = joined(g.subrange(start + len, g.len() as int), true, 58u8);
                        lemma_joined_bytes(g.subrange(0, start), true, 58u8);
                        lemma_joined_bytes(g.subrange(start + len, g.len() as int), true, 58u8);
                        let front = head.push(58u8).push(58u8);
                        assert forall|i: int| 0 <= i < (front + tail).len() implies is_address_byte(
                        #[trigger] (front + tail)[i]) by {
                            if i < head.len() {
                                assert((front + tail)[i] == head[i]);
                            } else if i < front.len() {
                                assert((front + tail)[i] == 58u8);
                            } else {
                                assert((front + tail)[i] == tail[i - front.len()]);
                            }
                        }
                    } else {
                        lemma_joined_bytes(g, true, 58u8);
                    }
                }
            },
        }
    }

    /// Appends the address text to `out`.
    pub fn write_text(&self, out: &mut Vec<u8>)
        ensures
            final(out)@ == old(out)@ + self.text(),
    {
        match self {
            IpAddress::V4 { octets } => {
                let groups: [u16; 4] = [
                    octets[0] as u16,
                    octets[1] as u16,
                    octets[2] as u16,
                    octets[3] as u16,
                ];
                assert(groups@ =~= octet_groups(octets@));
                push_groups(out, groups.as_slice(), false, 46);
            },
            IpAddress::V6 { groups } => {
                write_v6_text(out, groups.as_slice());
            },
        }
    }

    /// The address text as a fresh byte string.
    pub fn to_text(&self) -> (r: Vec<u8>)
        ensures
            r@ == self.text(),
    {
        let mut out: Vec<u8> = Vec::new();
        self.write_text(&mut out);
        assert(out@ =~= self.text());
        out
    }
}

/// Appends the digits of `n` to `out`, in base sixteen where `hex` is set,
/// in base ten otherwise.
pub fn push_number(out: &mut Vec<u8>, n: u16, hex: bool)
    ensures
        final(out)@ == old(out)@ + digits(n as nat, hex),
    decreases n,
{
    let base: u16 = if hex { 16 } else { 10 };
    let (q, d): (u16, u16) = if hex {
        (n / 16, n % 16)
    } else {
        (n / 10, n % 10)
    };
    if n >= base {
        push_number(out, q, hex);
    }
    let b: u8 = if d < 10 {
        48 + d as u8
    } else {
        87 + d as u8
    };
    out.push(b);
    assert(final(out)@ =~= old(out)@ + digits(n as nat, hex));
}

/// Appends the groups from place `from` up to place `to`, written as numbers
/// and joined by `sep`.
pub fn push_group_range(
    out: &mut Vec<u8>,
    groups: &[u16],
    from: usize,
    to: usize,
    hex: bool,
    sep: u8,
)
    requires
        from <= to <= groups@.len(),
    ensures
        final(out)@ == old(out)@ + joined(groups@.subrange(from as int, to as int), hex, sep),
{
    let mut i: usize = from;
    assert(out@ =~= old(out)@ + joined(groups@.subrange(from as int, i as int), hex, sep));
    while i < to
        invariant
            from <= i <= to <= groups@.len(),
            out@ == old(out)@ + joined(groups@.subrange(from as int, i as int), hex, sep),
        decreases to - i,
    {
        if i > from {
            out.push(sep);
        }
        push_number(out, groups[i], hex);
        proof {
            let next = groups@.subrange(from as int, i + 1);
            assert(next.drop_last() =~= groups@.subrange(from as int, i as int));
            assert(next.last() == groups@[i as int]);
            assert(out@ =~= old(out)@ + joined(next, hex, sep));
        }
        i = i + 1;
    }
}

/// Appends the groups, written as numbers and joined by `sep`.
pub fn push_groups(out: &mut Vec<u8>, groups: &[u16], hex: bool, sep: u8)
    ensures
        final(out)@ == old(out)@ + joined(groups@, hex, sep),
{
    assert(groups@.subrange(0, groups@.len() as int) =~= groups@);
    push_group_range(out, groups, 0, groups.len(), hex, sep);
}

/// How many groups in a row are zero, from `start` on.
pub fn zero_run_length(groups: &[u16], start: usize) -> (len: usize)
    requires
        start <= groups@.len(),
    ensures
        len == run_len(groups@, start as int),
        start + len <= groups@.len(),
{
    let mut end: usize = start;
    while end < groups.len() && groups[end] == 0
        invariant
            start <= end <= groups@.len(),
            run_len(groups@, start as int) == (end - start) + run_len(groups@, end as int),
        decreases groups@.len() - end,
    {
        end = end + 1;
    }
    end - start
}

/// Where the longest run of zero groups starts (the first one, where several
/// are as long), and how long it is.
pub fn longest_zero_run(groups: &[u16]) -> (r: (usize, usize))
    ensures
        r.0 == longest_run_start(groups@, groups@.len() as int),
        r.1 == run_len(groups@, r.0 as int),
        r.0 + r.1 <= groups@.len(),
{
    let mut best: usize = 0;
    let mut best_len: usize = zero_run_length(groups, 0);
    let mut k: usize = 1;
    while k < groups.len()
        invariant
            1 <= k,
            k <= groups@.len() || groups@.len() == 0,
            best == longest_run_start(groups@, k as int),
            best_len == run_len(groups@, best as int),
            best + best_len <= groups@.len(),
        decreases groups@.len() - k,
    {
        let len: usize = zero_run_length(groups, k);
        if len > best_len {
            best = k;
            best_len = len;
        }
        k = k + 1;
    }
    (best, best_len)
}

/// Appends the text of a version-six address to `out`.
pub fn write_v6_text(out: &mut Vec<u8>, groups: &[u16])
    requires
        groups@.len() == 8,
    ensures
        final(out)@ == old(out)@ + v6_text(groups@),
{
    if groups[0] == 0 && groups[1] == 0 && groups[2] == 0 && groups[3] == 0 && groups[4] == 0
        && groups[5] == 0xffff {
        out.push(58);
        out.push(58);
        out.push(102);
        out.push(102);
        out.push(102);
        out.push(102);
        out.push(58);
        let octets: [u16; 4] = [
            groups[6] / 256,
            groups[6] % 256,
            groups[7] / 256,
            groups[7] % 256,
        ];
        assert(octets@ =~= mapped_octets(groups@));
        push_groups(out, octets.as_slice(), false, 46);
        assert(out@ =~= old(out)@ + v6_text(groups@));
    } else {
        let (start, len) = longest_zero_run(groups);
        if len >= 2 {
            push_group_range(out, groups, 0, start, true, 58);
            out.push(58);
            out.push(58);
            push_group_range(out, groups, start + len, groups.len(), true, 58);
            assert(out@ =~= old(out)@ + v6_text(groups@));
        } else {
            push_groups(out, groups, true, 58);
        }
    }
}

} // verus!
