//! Planning of the addresses of a service's instances: unix sockets from
//! the socket directory's entries, or consecutive free TCP ports found by
//! probing (the probing itself is the caller's).

use vstd::prelude::*;
use crate::connect_addr::{ConnectAddr, ConnectAddrView, IpAddr, addrs_view};
use crate::sockets::{allocation_fits, get_sockets_paths, new_indices, socket_indices, socket_path};

verus! {

/// The unix socket addresses of service `name` in `dir` (see
/// `get_sockets_paths`).
pub fn unix_addresses(name: &str, count: u16, dir: &str, entry_names: &Vec<String>) -> (r: Vec<ConnectAddr>)
    requires
        allocation_fits(socket_indices(name@, entry_names@), count as nat),
    ensures
        r@.len() == count,
        forall|i: int|
            0 <= i < r@.len() ==> #[trigger] r@[i]@ == ConnectAddrView::Unix(
                socket_path(dir@, name@, new_indices(socket_indices(name@, entry_names@), count as nat)[i]),
            ),
{
    let paths = get_sockets_paths(name, count, dir, entry_names);
    let mut r: Vec<ConnectAddr> = Vec::new();
    let mut i: usize = 0;
    while i < paths.len()
        invariant
            i <= paths@.len(),
            r@.len() == i,
            forall|j: int| 0 <= j < i ==> #[trigger] r@[j]@ == ConnectAddrView::Unix(paths@[j]@),
        decreases paths@.len() - i,
    {
        r.push(ConnectAddr::Unix(paths[i].clone()));
        i += 1;
    }
    r
}

/// The mathematical value of a `PortSearch`.
pub struct PortSearchView {
    pub addr: IpAddr,
    pub current_port: u16,
    pub remaining: u16,
    pub found: Seq<ConnectAddrView>,
}

/// A search for `count` available TCP ports, counted up from a first port:
/// the caller probes `next_probe()` and reports whether it is available;
/// an available port is taken, and the search goes on from the port after
/// the one probed.
pub struct PortSearch {
    addr: IpAddr,
    current_port: u16,
    remaining: u16,
    found: Vec<ConnectAddr>,
}

impl View for PortSearch {
    type V = PortSearchView;

    closed spec fn view(&self) -> PortSearchView {
        PortSearchView {
            addr: self.addr,
            current_port: self.current_port,
            remaining: self.remaining,
            found: addrs_view(self.found@),
        }
    }
}

/// The search after the probed port was reported: the next port is the one
/// after it, and an available port is taken.
pub open spec fn after_report(s: PortSearchView, available: bool) -> PortSearchView {
    if available {
        PortSearchView {
            current_port: (s.current_port + 1) as u16,
            remaining: (s.remaining - 1) as u16,
            found: s.found.push(ConnectAddrView::Tcp { addr: s.addr, port: s.current_port }),
            ..s
        }
    } else {
        PortSearchView { current_port: (s.current_port + 1) as u16, ..s }
    }
}

/// The search after the reports `answers`, in order.
pub open spec fn after_reports(s: PortSearchView, answers: Seq<bool>) -> PortSearchView
    decreases answers.len(),
{
    if answers.len() == 0 {
        s
    } else {
        after_report(after_reports(s, answers.drop_last()), answers.last())
    }
}

impl PortSearch {
    /// A search for `count` ports on `addr`, from `port` on.
    pub fn new(addr: IpAddr, port: u16, count: u16) -> (s: PortSearch)
        ensures
            s@ == (PortSearchView { addr, current_port: port, remaining: count, found: Seq::empty() }),
    {
        let s = PortSearch { addr, current_port: port, remaining: count, found: Vec::new() };
        proof {
            assert(addrs_view(s.found@) =~= Seq::<ConnectAddrView>::empty());
        }
        s
    }

    /// The port to probe next, or `None` when all ports are found.
    pub fn next_probe(&self) -> (p: Option<u16>)
        ensures
            self@.remaining > 0 ==> p == Some(self@.current_port),
            self@.remaining == 0 ==> p.is_none(),
    {
        if self.remaining > 0 {
            Some(self.current_port)
        } else {
            None
        }
    }

    /// Reports whether the probed port is available: if so it is taken.
    /// Either way the next port is the one after it.
    pub fn report(&mut self, available: bool)
        requires
            old(self)@.remaining > 0,
            old(self)@.current_port < u16::MAX,
        ensures
            final(self)@ == after_report(old(self)@, available),
    {
        if available {
            let ghost before = addrs_view(self.found@);
            self.found.push(ConnectAddr::Tcp { addr: self.addr, port: self.current_port });
            proof {
                assert(addrs_view(self.found@) =~= before.push(
                    ConnectAddrView::Tcp { addr: self.addr, port: self.current_port },
                ));
            }
            self.remaining -= 1;
        }
        self.current_port += 1;
    }

    /// The addresses found.
    pub fn into_addresses(self) -> (r: Vec<ConnectAddr>)
        ensures
            addrs_view(r@) == self@.found,
    {
        self.found
    }
}

/// When every probed port is available, `k` reports take the `k` ports
/// from the first one probed on, in order: `port`, `port + 1`, ...
pub proof fn lemma_all_available_gives_consecutive_ports(s: PortSearchView, k: nat)
    requires
        s.current_port as int + k <= u16::MAX,
        k <= s.remaining,
    ensures
        after_reports(s, Seq::new(k, |i: int| true)) == (PortSearchView {
            addr: s.addr,
            current_port: (s.current_port + k) as u16,
            remaining: (s.remaining - k) as u16,
            found: s.found + Seq::new(
                k,
                |i: int| ConnectAddrView::Tcp { addr: s.addr, port: (s.current_port + i) as u16 },
            ),
        }),
    decreases k,
{
    let all = Seq::new(k, |i: int| true);
    if k == 0 {
        assert(s.found + Seq::new(
            0,
            |i: int| ConnectAddrView::Tcp { addr: s.addr, port: (s.current_port + i) as u16 },
        ) =~= s.found);
    } else {
        let prev = Seq::new((k - 1) as nat, |i: int| true);
        assert(all.drop_last() =~= prev);
        lemma_all_available_gives_consecutive_ports(s, (k - 1) as nat);
        assert(s.found + Seq::new(
            (k - 1) as nat,
            |i: int| ConnectAddrView::Tcp { addr: s.addr, port: (s.current_port + i) as u16 },
        ).push(ConnectAddrView::Tcp { addr: s.addr, port: (s.current_port + k - 1) as u16 })
            =~= s.found + Seq::new(
            k,
            |i: int| ConnectAddrView::Tcp { addr: s.addr, port: (s.current_port + i) as u16 },
        ));
    }
}

/// How many reports said the port was available.
pub open spec fn count_available(answers: Seq<bool>) -> nat
    decreases answers.len(),
{
    if answers.len() == 0 {
        0
    } else {
        count_available(answers.drop_last()) + if answers.last() {
            1nat
        } else {
            0nat
        }
    }
}

/// The addresses of the probed ports, from `start` on, that were reported
/// available, in order.
pub open spec fn available_addresses(addr: IpAddr, start: u16, answers: Seq<bool>) -> Seq<ConnectAddrView>
    decreases answers.len(),
{
    if answers.len() == 0 {
        Seq::empty()
    } else {
        available_addresses(addr, start, answers.drop_last()) + if answers.last() {
            seq![ConnectAddrView::Tcp { addr, port: (start + answers.len() - 1) as u16 }]
        } else {
            Seq::empty()
        }
    }
}

/// Whatever ports are busy, a search takes exactly the ports reported
/// available, in the order probed, and counts down only for those: a busy
/// port changes nothing but the port probed next. So a search for `k`
/// ports ends with `k` addresses once `k` ports were reported available.
pub proof fn lemma_search_takes_exactly_the_available_ports(s: PortSearchView, answers: Seq<bool>)
    requires
        s.current_port as int + answers.len() <= u16::MAX,
        count_available(answers) <= s.remaining,
    ensures
        after_reports(s, answers).found == s.found + available_addresses(
            s.addr,
            s.current_port,
            answers,
        ),
        after_reports(s, answers).remaining == s.remaining - count_available(answers),
        after_reports(s, answers).current_port == s.current_port + answers.len(),
        after_reports(s, answers).addr == s.addr,
    decreases answers.len(),
{
    if answers.len() > 0 {
        let d = answers.drop_last();
        assert(count_available(d) <= count_available(answers));
        lemma_search_takes_exactly_the_available_ports(s, d);
        let t = after_reports(s, d);
        if answers.last() {
            assert(t.found.push(ConnectAddrView::Tcp { addr: s.addr, port: t.current_port })
                =~= s.found + available_addresses(s.addr, s.current_port, answers));
        } else {
            assert(t.found =~= s.found + available_addresses(s.addr, s.current_port, answers));
        }
    } else {
        assert(s.found + Seq::<ConnectAddrView>::empty() =~= s.found);
    }
}

/// A search for `k` ports is complete, with `k` addresses, as soon as `k`
/// probed ports were reported available, however many were busy before.
pub proof fn lemma_search_finds_as_many_ports_as_asked(s: PortSearchView, answers: Seq<bool>)
    requires
        s.found.len() == 0,
        s.current_port as int + answers.len() <= u16::MAX,
        count_available(answers) == s.remaining,
    ensures
        after_reports(s, answers).remaining == 0,
        after_reports(s, answers).found.len() == s.remaining,
{
    lemma_search_takes_exactly_the_available_ports(s, answers);
    lemma_available_addresses_len(s.addr, s.current_port, answers);
}

proof fn lemma_available_addresses_len(addr: IpAddr, start: u16, answers: Seq<bool>)
    ensures
        available_addresses(addr, start, answers).len() == count_available(answers),
    decreases answers.len(),
{
    if answers.len() > 0 {
        lemma_available_addresses_len(addr, start, answers.drop_last());
    }
}

} // verus!
