//! Addresses the backend services listen on: a unix socket path or a TCP
//! address, with their textual forms.

use vstd::prelude::*;
use crate::text::{decimal, numeral, push_char, push_numeral, push_str};

verus! {

/// An IP address, held by its octets (version 4) or its segments
/// (version 6).
#[derive(Debug, Clone, Copy, PartialEq, Eq, Structural)]
pub enum IpAddr {
    V4(u8, u8, u8, u8),
    V6(u16, u16, u16, u16, u16, u16, u16, u16),
}

/// The eight segments of a version 6 address.
pub open spec fn v6_segments(ip: IpAddr) -> Seq<u16> {
    match ip {
        IpAddr::V6(a, b, c, d, e, f, g, h) => seq![a, b, c, d, e, f, g, h],
        IpAddr::V4(..) => Seq::empty(),
    }
}

/// Dotted decimal text of a version 4 address.
pub open spec fn ipv4_text(a: u8, b: u8, c: u8, d: u8) -> Seq<char> {
    decimal(a as nat) + seq!['.'] + decimal(b as nat) + seq!['.'] + decimal(c as nat) + seq!['.']
        + decimal(d as nat)
}

/// Segments in lower case hexadecimal, separated by `:`.
pub open spec fn hex_groups(s: Seq<u16>) -> Seq<char>
    decreases s.len(),
{
    if s.len() == 0 {
        Seq::empty()
    } else if s.len() == 1 {
        numeral(s[0] as nat, 16)
    } else {
        hex_groups(s.drop_last()) + seq![':'] + numeral(s.last() as nat, 16)
    }
}

/// `s[start..start + len]` is all zeros.
pub open spec fn is_zero_run(s: Seq<u16>, start: int, len: int) -> bool {
    &&& 0 <= start
    &&& 0 <= len
    &&& start + len <= s.len()
    &&& forall|i: int| start <= i < start + len ==> s[i] == 0
}

/// The longest run of zero segments, the first one of them if several are
/// equally long.
pub open spec fn is_first_longest_zero_run(s: Seq<u16>, start: int, len: int) -> bool {
    &&& is_zero_run(s, start, len)
    &&& forall|st: int, ln: int| #[trigger] is_zero_run(s, st, ln) ==> ln <= len
    &&& forall|st: int| #[trigger] is_zero_run(s, st, len) ==> start <= st
}

/// The address maps a version 4 address (`::ffff:a.b.c.d`).
pub open spec fn is_ipv4_mapped(s: Seq<u16>) -> bool {
    s.len() == 8 && s[0] == 0 && s[1] == 0 && s[2] == 0 && s[3] == 0 && s[4] == 0 && s[5] == 0xffff
}

/// Text of a version 6 address as RFC 5952 writes it, which is what
/// `Ipv6Addr`'s `Display` prints: a mapped version 4 address as
/// `::ffff:a.b.c.d`; otherwise the first longest run of at least two zero
/// segments shortened to `::`.
pub open spec fn ipv6_text(s: Seq<u16>) -> Seq<char> {
    if is_ipv4_mapped(s) {
        seq![':', ':', 'f', 'f', 'f', 'f', ':'] + ipv4_text(
            (s[6] / 256) as u8,
            (s[6] % 256) as u8,
            (s[7] / 256) as u8,
            (s[7] % 256) as u8,
        )
    } else {
        let (start, len) = choose|start: int, len: int| is_first_longest_zero_run(s, start, len);
        if len > 1 {
            hex_groups(s.take(start)) + seq![':', ':'] + hex_groups(s.skip(start + len))
        } else {
            hex_groups(s)
        }
    }
}

/// Text of an IP address, as its `Display` prints it.
pub open spec fn ip_text(ip: IpAddr) -> Seq<char> {
    match ip {
        IpAddr::V4(a, b, c, d) => ipv4_text(a, b, c, d),
        IpAddr::V6(..) => ipv6_text(v6_segments(ip)),
    }
}

fn push_ipv4(out: &mut String, a: u8, b: u8, c: u8, d: u8)
    ensures
        final(out)@ == old(out)@ + ipv4_text(a, b, c, d),
{
    push_numeral(out, a as u64, 10);
    push_char(out, '.');
    push_numeral(out, b as u64, 10);
    push_char(out, '.');
    push_numeral(out, c as u64, 10);
    push_char(out, '.');
    push_numeral(out, d as u64, 10);
    proof {
        assert(out@ =~= old(out)@ + ipv4_text(a, b, c, d));
    }
}

/// Appends `hex_groups(s[from..to])`.
fn push_hex_groups(out: &mut String, s: &Vec<u16>, from: usize, to: usize)
    requires
        from <= to <= s@.len(),
    ensures
        final(out)@ == old(out)@ + hex_groups(s@.subrange(from as int, to as int)),
{
    let mut i = from;
    proof {
        assert(s@.subrange(from as int, from as int) =~= Seq::<u16>::empty());
    }
    while i < to
        invariant
            from <= i <= to,
            to <= s@.len(),
            out@ == old(out)@ + hex_groups(s@.subrange(from as int, i as int)),
        decreases to - i,
    {
        let ghost before = out@;
        if i > from {
            push_char(out, ':');
        }
        push_numeral(out, s[i] as u64, 16);
        proof {
            let sub = s@.subrange(from as int, i + 1);
            assert(sub.drop_last() =~= s@.subrange(from as int, i as int));
            assert(sub.last() == s@[i as int]);
            if i > from {
                assert(out@ =~= old(out)@ + hex_groups(sub));
            } else {
                assert(sub.len() == 1);
                assert(out@ =~= old(out)@ + hex_groups(sub));
            }
        }
        i += 1;
    }
}

proof fn lemma_first_longest_unique(s: Seq<u16>, st1: int, ln1: int, st2: int, ln2: int)
    requires
        is_first_longest_zero_run(s, st1, ln1),
        is_first_longest_zero_run(s, st2, ln2),
    ensures
        st1 == st2,
        ln1 == ln2,
{
    assert(is_zero_run(s, st2, ln2));
    assert(is_zero_run(s, st1, ln1));
    assert(ln1 == ln2);
    assert(is_zero_run(s, st2, ln1));
    assert(is_zero_run(s, st1, ln2));
}

/// Finds the first longest run of zeros, as `Ipv6Addr`'s `Display` does.
fn first_longest_zero_run(s: &Vec<u16>) -> (r: (usize, usize))
    ensures
        is_first_longest_zero_run(s@, r.0 as int, r.1 as int),
{
    let mut longest_start: usize = 0;
    let mut longest_len: usize = 0;
    let mut current_start: usize = 0;
    let mut current_len: usize = 0;
    let mut i: usize = 0;
    while i < s.len()
        invariant
            i <= s@.len(),
            current_len <= i,
            current_len > 0 ==> current_start == i - current_len,
            is_zero_run(s@, i - current_len, current_len as int),
            forall|st: int, ln: int|
                is_zero_run(s@, st, ln) && st + ln == i ==> ln <= current_len,
            is_zero_run(s@, longest_start as int, longest_len as int),
            longest_start + longest_len <= i,
            forall|st: int, ln: int|
                #[trigger] is_zero_run(s@, st, ln) && st + ln <= i ==> ln <= longest_len,
            forall|st: int|
                #[trigger] is_zero_run(s@, st, longest_len as int) && st + longest_len <= i
                    ==> longest_start <= st,
        decreases s@.len() - i,
    {
        if s[i] == 0 {
            if current_len == 0 {
                current_start = i;
            }
            current_len += 1;
            proof {
                assert forall|st: int, ln: int| is_zero_run(s@, st, ln) && st + ln == i + 1 implies ln
                    <= current_len by {
                    if ln > 0 {
                        assert(is_zero_run(s@, st, ln - 1));
                    }
                }
            }
            if current_len > longest_len {
                proof {
                    assert forall|st: int, ln: int|
                        #[trigger] is_zero_run(s@, st, ln) && st + ln <= i + 1 implies ln
                        <= current_len by {
                        if st + ln <= i {
                        } else {
                        }
                    }
                    assert forall|st: int|
                        #[trigger] is_zero_run(s@, st, current_len as int) && st + current_len <= i
                            + 1 implies current_start <= st by {
                        if st + current_len <= i {
                            assert(current_len <= longest_len);
                        }
                    }
                }
                longest_start = current_start;
                longest_len = current_len;
            } else {
                proof {
                    assert forall|st: int| #[trigger]
                        is_zero_run(s@, st, longest_len as int) && st + longest_len <= i + 1
                            implies longest_start <= st by {
                        if st + longest_len == i + 1 {
                            assert(longest_start + longest_len <= i);
                        }
                    }
                }
            }
        } else {
            proof {
                assert forall|st: int, ln: int|
                    #[trigger] is_zero_run(s@, st, ln) && st + ln <= i + 1 implies ln <= longest_len by {
                    if st + ln == i + 1 && ln > 0 {
                        assert(s@[i as int] == 0);
                    }
                }
                assert forall|st: int| #[trigger]
                    is_zero_run(s@, st, longest_len as int) && st + longest_len <= i + 1
                        implies longest_start <= st by {
                    if st + longest_len == i + 1 && longest_len > 0 {
                        assert(s@[i as int] == 0);
                    }
                }
                assert forall|st: int, ln: int| is_zero_run(s@, st, ln) && st + ln == i + 1 implies ln
                    <= 0 by {
                    if ln > 0 {
                        assert(s@[i as int] == 0);
                    }
                }
            }
            current_start = 0;
            current_len = 0;
        }
        i += 1;
    }
    (longest_start, longest_len)
}

/// Appends the text of `ip`.
pub fn push_ip(out: &mut String, ip: IpAddr)
    ensures
        final(out)@ == old(out)@ + ip_text(ip),
{
    match ip {
        IpAddr::V4(a, b, c, d) => push_ipv4(out, a, b, c, d),
        IpAddr::V6(a, b, c, d, e, f, g, h) => {
            let segments = vec![a, b, c, d, e, f, g, h];
            proof {
                assert(segments@ =~= v6_segments(ip));
            }
            if a == 0 && b == 0 && c == 0 && d == 0 && e == 0 && f == 0xffff {
                push_char(out, ':');
                push_char(out, ':');
                push_char(out, 'f');
                push_char(out, 'f');
                push_char(out, 'f');
                push_char(out, 'f');
                push_char(out, ':');
                push_ipv4(out, (g / 256) as u8, (g % 256) as u8, (h / 256) as u8, (h % 256) as u8);
                proof {
                    assert(out@ =~= old(out)@ + ip_text(ip));
                }
            } else {
                let (start, len) = first_longest_zero_run(&segments);
                proof {
                    let (st, ln) = choose|st: int, ln: int|
                        is_first_longest_zero_run(segments@, st, ln);
                    assert(is_first_longest_zero_run(segments@, start as int, len as int));
                    lemma_first_longest_unique(segments@, st, ln, start as int, len as int);
                }
                if len > 1 {
                    push_hex_groups(out, &segments, 0, start);
                    push_char(out, ':');
                    push_char(out, ':');
                    push_hex_groups(out, &segments, start + len, 8);
                    proof {
                        assert(segments@.subrange(0, start as int) =~= segments@.take(
                            start as int,
                        ));
                        assert(segments@.subrange(start + len, 8) =~= segments@.skip(
                            start + len,
                        ));
                        assert(out@ =~= old(out)@ + ip_text(ip));
                    }
                } else {
                    push_hex_groups(out, &segments, 0, 8);
                    proof {
                        assert(segments@.subrange(0, 8) =~= segments@);
                        assert(out@ =~= old(out)@ + ip_text(ip));
                    }
                }
            }
        },
    }
}

impl IpAddr {
    /// The text of the address, as its `Display` prints it.
    pub fn to_display_string(&self) -> (s: String)
        ensures
            s@ == ip_text(*self),
    {
        let mut s = String::new();
        push_ip(&mut s, *self);
        proof {
            assert(s@ =~= ip_text(*self));
        }
        s
    }
}

} // verus!

verus! {

/// Both tcp and unix socket connections in one simple enum.
#[derive(Debug)]
pub enum ConnectAddr {
    Unix(String),
    Tcp { addr: IpAddr, port: u16 },
}

/// The mathematical value of a `ConnectAddr`.
pub enum ConnectAddrView {
    Unix(Seq<char>),
    Tcp { addr: IpAddr, port: u16 },
}

impl View for ConnectAddr {
    type V = ConnectAddrView;

    open spec fn view(&self) -> ConnectAddrView {
        match self {
            ConnectAddr::Unix(path) => ConnectAddrView::Unix(path@),
            ConnectAddr::Tcp { addr, port } => ConnectAddrView::Tcp { addr: *addr, port: *port },
        }
    }
}

/// Text of an address, as its `Display` prints it: the socket path, or
/// `ip:port`.
pub open spec fn addr_text(a: ConnectAddrView) -> Seq<char> {
    match a {
        ConnectAddrView::Unix(path) => path,
        ConnectAddrView::Tcp { addr, port } => ip_text(addr) + seq![':'] + decimal(port as nat),
    }
}

/// The views of a sequence of addresses.
pub open spec fn addrs_view(s: Seq<ConnectAddr>) -> Seq<ConnectAddrView> {
    s.map_values(|a: ConnectAddr| a@)
}

impl Clone for ConnectAddr {
    fn clone(&self) -> (r: Self)
        ensures
            r@ == self@,
    {
        match self {
            ConnectAddr::Unix(path) => ConnectAddr::Unix(path.clone()),
            ConnectAddr::Tcp { addr, port } => ConnectAddr::Tcp { addr: *addr, port: *port },
        }
    }
}

impl ConnectAddr {
    /// Whether two addresses are the same.
    pub fn same_as(&self, other: &ConnectAddr) -> (b: bool)
        ensures
            b == (self@ == other@),
    {
        match (self, other) {
            (ConnectAddr::Unix(a), ConnectAddr::Unix(b)) => a.eq(b),
            (ConnectAddr::Tcp { addr: a1, port: p1 }, ConnectAddr::Tcp { addr: a2, port: p2 }) => {
                *a1 == *a2 && *p1 == *p2
            },
            _ => false,
        }
    }

    /// The text of the address, as its `Display` prints it.
    pub fn to_display_string(&self) -> (s: String)
        ensures
            s@ == addr_text(self@),
    {
        let mut s = String::new();
        match self {
            ConnectAddr::Unix(path) => {
                push_str(&mut s, path.as_str());
            },
            ConnectAddr::Tcp { addr, port } => {
                push_ip(&mut s, *addr);
                push_char(&mut s, ':');
                push_numeral(&mut s, *port as u64, 10);
            },
        }
        proof {
            assert(s@ =~= addr_text(self@));
        }
        s
    }

    /// Converts the address into its text.
    pub fn into_string(self) -> (s: String)
        ensures
            s@ == addr_text(self@),
    {
        self.to_display_string()
    }
}

/// Whether `addrs` holds an address equal to `a`.
pub fn contains_addr(addrs: &Vec<ConnectAddr>, a: &ConnectAddr) -> (b: bool)
    ensures
        b == addrs_view(addrs@).contains(a@),
{
    let mut i: usize = 0;
    while i < addrs.len()
        invariant
            i <= addrs@.len(),
            forall|j: int| 0 <= j < i ==> addrs@[j]@ != a@,
        decreases addrs@.len() - i,
    {
        if addrs[i].same_as(a) {
            proof {
                assert(addrs_view(addrs@)[i as int] == a@);
            }
            return true;
        }
        i += 1;
    }
    proof {
        if addrs_view(addrs@).contains(a@) {
            let k = choose|k: int| 0 <= k < addrs_view(addrs@).len() && addrs_view(addrs@)[k] == a@;
            assert(addrs@[k]@ == a@);
        }
    }
    false
}

/// Copies of the addresses.
pub fn clone_addrs(addrs: &Vec<ConnectAddr>) -> (r: Vec<ConnectAddr>)
    ensures
        addrs_view(r@) == addrs_view(addrs@),
{
    let mut r: Vec<ConnectAddr> = Vec::new();
    let mut i: usize = 0;
    while i < addrs.len()
        invariant
            i <= addrs@.len(),
            r@.len() == i,
            addrs_view(r@) == addrs_view(addrs@.take(i as int)),
        decreases addrs@.len() - i,
    {
        let ghost before = r@;
        let c = addrs[i].clone();
        r.push(c);
        proof {
            assert(addrs_view(before) =~= addrs_view(addrs@.take(i as int)));
            assert forall|j: int| 0 <= j < i + 1 implies #[trigger] addrs_view(r@)[j] == addrs_view(
                addrs@.take(i + 1),
            )[j] by {
                if j < i {
                    assert(addrs_view(r@)[j] == addrs_view(before)[j]);
                    assert(addrs_view(before)[j] == addrs_view(addrs@.take(i as int))[j]);
                }
            }
            assert(addrs_view(r@) =~= addrs_view(addrs@.take(i + 1)));
        }
        i += 1;
    }
    proof {
        assert(addrs@.take(i as int) =~= addrs@);
    }
    r
}

} // verus!
