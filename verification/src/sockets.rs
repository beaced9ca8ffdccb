//! Planning of unix socket paths for the instances of a service: the
//! numbers of the sockets a service already has are read from the names of
//! the files in its socket directory, and new sockets get the smallest
//! numbers that are still free.

use vstd::prelude::*;
use vstd::string::*;
use crate::text::{decimal, path_join, push_char, push_str, join_path};

verus! {

/// The smallest number from `m` on that `s` does not hold; 65536 when it
/// holds every number from `m` to 65535.
pub open spec fn first_missing_from(s: Seq<u16>, m: int) -> int
    decreases 65536 - m,
{
    if m >= 65536 || !s.contains(m as u16) {
        m
    } else {
        first_missing_from(s, m + 1)
    }
}

/// The smallest number, counted from 1, that `s` does not hold; 65536 when
/// `s` holds every number from 1 to 65535.
pub open spec fn min_not_occupied(s: Seq<u16>) -> int {
    first_missing_from(s, 1)
}

proof fn lemma_first_missing_from(s: Seq<u16>, m: int)
    requires
        1 <= m <= 65536,
    ensures
        m <= first_missing_from(s, m) <= 65536,
        first_missing_from(s, m) <= 65535 ==> !s.contains(first_missing_from(s, m) as u16),
        forall|k: u16| m <= k < first_missing_from(s, m) ==> #[trigger] s.contains(k),
    decreases 65536 - m,
{
    if m < 65536 && s.contains(m as u16) {
        lemma_first_missing_from(s, m + 1);
        assert forall|k: u16| m <= k < first_missing_from(s, m) implies #[trigger] s.contains(k) by {
            if k == m {
                assert(k == m as u16);
            }
        }
    }
}

/// Whether `numbers` holds `k`.
fn holds(numbers: &Vec<u16>, k: u16) -> (b: bool)
    ensures
        b == numbers@.contains(k),
{
    let mut i: usize = 0;
    while i < numbers.len()
        invariant
            i <= numbers@.len(),
            forall|j: int| 0 <= j < i ==> numbers@[j] != k,
        decreases numbers@.len() - i,
    {
        if numbers[i] == k {
            proof {
                assert(numbers@[i as int] == k);
            }
            return true;
        }
        i += 1;
    }
    false
}

/// The smallest free number for `numbers`, or `None` when `numbers` holds
/// every number from 1 to `u16::MAX`.
pub fn checked_min_not_occupied(numbers: &Vec<u16>) -> (r: Option<u16>)
    ensures
        match r {
            Some(v) => v == min_not_occupied(numbers@),
            None => min_not_occupied(numbers@) > u16::MAX,
        },
{
    let mut candidate: u16 = 1;
    loop
        invariant
            1 <= candidate,
            first_missing_from(numbers@, candidate as int) == min_not_occupied(numbers@),
        decreases 65536 - candidate,
    {
        if !holds(numbers, candidate) {
            return Some(candidate);
        }
        if candidate == u16::MAX {
            proof {
                assert(first_missing_from(numbers@, 65536) == 65536);
            }
            return None;
        }
        candidate += 1;
    }
}

/// Finds the minimal free number, counted from 1: the smallest number that
/// `numbers` does not hold. Their order and repeats make no difference.
pub fn find_min_not_occupied(numbers: Vec<u16>) -> (r: u16)
    requires
        exists|n: u16| n >= 1 && !numbers@.contains(n),
    ensures
        r == min_not_occupied(numbers@),
{
    proof {
        let n = choose|n: u16| n >= 1 && !numbers@.contains(n);
        lemma_first_missing_from(numbers@, 1);
        if min_not_occupied(numbers@) > u16::MAX {
            assert(numbers@.contains(n));
        }
    }
    checked_min_not_occupied(&numbers).unwrap()
}

} // verus!

verus! {


/// An ASCII decimal digit.
pub open spec fn is_digit(c: char) -> bool {
    '0' <= c && c <= '9'
}

/// The value of a string of decimal digits.
pub open spec fn digits_value(s: Seq<char>) -> nat
    decreases s.len(),
{
    if s.len() == 0 {
        0
    } else {
        digits_value(s.drop_last()) * 10 + (s.last() as nat - '0' as nat) as nat
    }
}

/// The digits that `u16::from_str` reads: one leading `+` is skipped.
pub open spec fn u16_digits(s: Seq<char>) -> Seq<char> {
    if s.len() > 0 && s[0] == '+' {
        s.skip(1)
    } else {
        s
    }
}

/// `u16::from_str`: an optional `+`, then at least one ASCII digit, and a
/// value that fits in a `u16`.
pub open spec fn parse_u16(s: Seq<char>) -> Option<u16> {
    let d = u16_digits(s);
    if d.len() > 0 && (forall|i: int| 0 <= i < d.len() ==> is_digit(#[trigger] d[i]))
        && digits_value(d) <= u16::MAX {
        Some(digits_value(d) as u16)
    } else {
        None
    }
}


/// The file name of socket `idx` of service `name`: `<name>-socket-<idx>`.
pub open spec fn socket_file_name(name: Seq<char>, idx: u16) -> Seq<char> {
    socket_prefix(name) + decimal(idx as nat)
}

/// The start of the socket file names of service `name`: `<name>-socket-`.
pub open spec fn socket_prefix(name: Seq<char>) -> Seq<char> {
    name + seq!['-', 's', 'o', 'c', 'k', 'e', 't', '-']
}

/// The number of an entry that is a socket file of service `name`
/// (`<name>-socket-<number>`, the number read as `u16::from_str` reads it).
pub open spec fn socket_index(name: Seq<char>, entry: Seq<char>) -> Option<u16> {
    let prefix = socket_prefix(name);
    if entry.len() >= prefix.len() && entry.take(prefix.len() as int) == prefix {
        parse_u16(entry.skip(prefix.len() as int))
    } else {
        None
    }
}

/// The numbers of the socket files of service `name` among the entries, in
/// the order given.
pub open spec fn socket_indices(name: Seq<char>, entries: Seq<String>) -> Seq<u16>
    decreases entries.len(),
{
    if entries.len() == 0 {
        Seq::empty()
    } else {
        let rest = socket_indices(name, entries.drop_last());
        match socket_index(name, entries.last()@) {
            Some(v) => rest.push(v),
            None => rest,
        }
    }
}

/// The numbers after `k` more rounds of picking the smallest free number.
pub open spec fn allocate(s: Seq<u16>, k: nat) -> Seq<u16>
    decreases k,
{
    if k == 0 {
        s
    } else {
        allocate(s.push(min_not_occupied(s) as u16), (k - 1) as nat)
    }
}

/// The `k` numbers picked after `s`, in order.
pub open spec fn new_indices(s: Seq<u16>, k: nat) -> Seq<u16> {
    allocate(s, k).skip(s.len() as int)
}

/// Every one of the `k` rounds finds a free number.
pub open spec fn allocation_fits(s: Seq<u16>, k: nat) -> bool
    decreases k,
{
    k == 0 || (min_not_occupied(s) <= u16::MAX && allocation_fits(
        s.push(min_not_occupied(s) as u16),
        (k - 1) as nat,
    ))
}

/// The path of socket `idx` of service `name` in directory `dir`.
pub open spec fn socket_path(dir: Seq<char>, name: Seq<char>, idx: u16) -> Seq<char> {
    path_join(dir, socket_file_name(name, idx))
}


proof fn lemma_digits_value_prefix(s: Seq<char>, k: int)
    requires
        0 <= k <= s.len(),
    ensures
        digits_value(s.take(k)) <= digits_value(s),
    decreases s.len(),
{
    if k < s.len() {
        assert(s.drop_last().take(k) =~= s.take(k));
        lemma_digits_value_prefix(s.drop_last(), k);
    } else {
        assert(s.take(k) =~= s);
    }
}

/// `u16::from_str` on the characters of `s` from position `start` on.
fn parse_u16_from(s: &str, start: usize) -> (r: Option<u16>)
    requires
        start <= s@.len(),
    ensures
        r == parse_u16(s@.skip(start as int)),
{
    let len = s.unicode_len();
    let ghost t = s@.skip(start as int);
    let mut i = start;
    if i < len && s.get_char(i) == '+' {
        i = i + 1;
    }
    let ghost d = u16_digits(t);
    proof {
        assert(d =~= s@.skip(i as int));
    }
    if i == len {
        return None;
    }
    let mut value: u32 = 0;
    let first = i;
    while i < len
        invariant
            first <= i <= len,
            len == s@.len(),
            d =~= s@.skip(first as int),
            d == u16_digits(s@.skip(start as int)),
            d.len() > 0,
            value <= u16::MAX,
            value == digits_value(d.take(i - first)),
            forall|j: int| 0 <= j < i - first ==> is_digit(#[trigger] d[j]),
        decreases len - i,
    {
        let c = s.get_char(i);
        proof {
            assert(d[i - first] == c);
        }
        if !('0' <= c && c <= '9') {
            proof {
                assert(!is_digit(d[i - first]));
            }
            return None;
        }
        let ghost prefix = d.take(i - first + 1);
        let ghost old_value = value;
        proof {
            assert(prefix.drop_last() =~= d.take(i - first));
            assert(prefix.last() == c);
            assert(digits_value(prefix) == old_value * 10 + (c as nat - '0' as nat));
        }
        value = value * 10 + (c as u32 - '0' as u32);
        i = i + 1;
        proof {
            assert(value == digits_value(prefix));
            assert(prefix =~= d.take(i - first));
        }
        if value > u16::MAX as u32 {
            proof {
                lemma_digits_value_prefix(d, i - first);
                assert(digits_value(d) > u16::MAX);
            }
            return None;
        }
    }
    proof {
        assert(d.take(i - first) =~= d);
    }
    Some(value as u16)
}


/// The start of the socket file names of service `name`.
fn socket_prefix_of(name: &str) -> (p: String)
    ensures
        p@ == socket_prefix(name@),
{
    let mut p = String::new();
    push_str(&mut p, name);
    push_char(&mut p, '-');
    push_char(&mut p, 's');
    push_char(&mut p, 'o');
    push_char(&mut p, 'c');
    push_char(&mut p, 'k');
    push_char(&mut p, 'e');
    push_char(&mut p, 't');
    push_char(&mut p, '-');
    proof {
        assert(p@ =~= socket_prefix(name@));
    }
    p
}

/// The number of `entry` if it is a socket file of service `name`.
pub fn parse_socket_index(name: &str, entry: &str) -> (r: Option<u16>)
    ensures
        r == socket_index(name@, entry@),
{
    let prefix = socket_prefix_of(name);
    let plen = prefix.unicode_len();
    let elen = entry.unicode_len();
    if elen < plen {
        return None;
    }
    let mut j: usize = 0;
    while j < plen
        invariant
            j <= plen,
            plen == prefix@.len(),
            prefix@ == socket_prefix(name@),
            elen == entry@.len(),
            plen <= elen,
            forall|i: int| 0 <= i < j ==> entry@[i] == prefix@[i],
        decreases plen - j,
    {
        if entry.get_char(j) != prefix.get_char(j) {
            proof {
                assert(entry@.take(plen as int)[j as int] != prefix@[j as int]);
                assert(entry@.take(plen as int) != prefix@);
            }
            return None;
        }
        j += 1;
    }
    proof {
        assert(entry@.take(plen as int) =~= prefix@);
    }
    parse_u16_from(entry, plen)
}

/// The numbers of the socket files of service `name` among the entry
/// names of its socket directory.
pub fn indices_from_entries(name: &str, entry_names: &Vec<String>) -> (r: Vec<u16>)
    ensures
        r@ == socket_indices(name@, entry_names@),
{
    let mut r: Vec<u16> = Vec::new();
    let mut i: usize = 0;
    while i < entry_names.len()
        invariant
            i <= entry_names.len(),
            r@ == socket_indices(name@, entry_names@.take(i as int)),
        decreases entry_names.len() - i,
    {
        let idx = parse_socket_index(name, entry_names[i].as_str());
        proof {
            assert(entry_names@.take(i + 1).drop_last() =~= entry_names@.take(i as int));
        }
        match idx {
            Some(v) => r.push(v),
            None => {},
        }
        i += 1;
    }
    proof {
        assert(entry_names@.take(i as int) =~= entry_names@);
    }
    r
}

/// Whether all `count` socket indices to allocate after `indices` fit in a
/// `u16`.
pub fn allocation_fits_exec(indices: &Vec<u16>, count: u16) -> (b: bool)
    ensures
        b == allocation_fits(indices@, count as nat),
{
    let mut cur = indices.clone();
    let mut k: u16 = count;
    while k > 0
        invariant
            allocation_fits(indices@, count as nat) == allocation_fits(cur@, k as nat),
        decreases k,
    {
        match checked_min_not_occupied(&cur) {
            Some(v) => {
                cur.push(v);
                k = k - 1;
            },
            None => {
                return false;
            },
        }
    }
    true
}

/// The path of socket `idx` of service `service_name` in `dir`.
pub fn socket_path_for(dir: &str, service_name: &str, idx: u16) -> (p: String)
    ensures
        p@ == socket_path(dir@, service_name@, idx),
{
    let mut file = String::new();
    push_str(&mut file, service_name);
    push_char(&mut file, '-');
    push_char(&mut file, 's');
    push_char(&mut file, 'o');
    push_char(&mut file, 'c');
    push_char(&mut file, 'k');
    push_char(&mut file, 'e');
    push_char(&mut file, 't');
    push_char(&mut file, '-');
    let digits = crate::text::decimal_string(idx as u64);
    push_str(&mut file, digits.as_str());
    proof {
        assert(file@ =~= socket_file_name(service_name@, idx));
    }
    join_path(dir, file.as_str())
}

/// The paths of `sockets_count` new sockets of service `service_name` in
/// `unix_socket_dir`, given the names of the entries found in that
/// directory: the numbers of its existing socket files
/// (`<service_name>-socket-<number>`) are occupied, and each new socket gets
/// the smallest number left free at its turn.
pub fn get_sockets_paths(
    service_name: &str,
    sockets_count: u16,
    unix_socket_dir: &str,
    entry_names: &Vec<String>,
) -> (paths: Vec<String>)
    requires
        allocation_fits(socket_indices(service_name@, entry_names@), sockets_count as nat),
    ensures
        paths@.len() == sockets_count,
        forall|i: int|
            0 <= i < paths@.len() ==> #[trigger] paths@[i]@ == socket_path(
                unix_socket_dir@,
                service_name@,
                new_indices(socket_indices(service_name@, entry_names@), sockets_count as nat)[i],
            ),
{
    let mut sock_indices = indices_from_entries(service_name, entry_names);
    let existing = sock_indices.len();
    let ghost start = sock_indices@;
    let ghost target = allocate(start, sockets_count as nat);
    proof {
        lemma_allocate_shape(start, sockets_count as nat);
    }
    let mut k: u16 = 0;
    while k < sockets_count
        invariant
            k <= sockets_count,
            target == allocate(sock_indices@, (sockets_count - k) as nat),
            allocation_fits(sock_indices@, (sockets_count - k) as nat),
            sock_indices@.len() == existing + k,
        decreases sockets_count - k,
    {
        let min = checked_min_not_occupied(&sock_indices).unwrap();
        sock_indices.push(min);
        k += 1;
    }
    let mut paths: Vec<String> = Vec::new();
    let mut i: usize = existing;
    while i < sock_indices.len()
        invariant
            existing <= i <= sock_indices.len(),
            existing == start.len(),
            target == sock_indices@,
            paths@.len() == i - existing,
            forall|j: int|
                0 <= j < i - existing ==> #[trigger] paths@[j]@ == socket_path(
                    unix_socket_dir@,
                    service_name@,
                    target[existing + j],
                ),
        decreases sock_indices.len() - i,
    {
        let p = socket_path_for(unix_socket_dir, service_name, sock_indices[i]);
        paths.push(p);
        i += 1;
    }
    paths
}

} // verus!

verus! {

/// The number picked is the least one missing: it is positive, every
/// smaller positive number is among the given numbers, and it is not (when
/// it fits in a `u16`).
pub proof fn lemma_min_not_occupied_is_least_missing(s: Seq<u16>)
    ensures
        min_not_occupied(s) >= 1,
        forall|k: u16| 1 <= k < min_not_occupied(s) ==> #[trigger] s.contains(k),
        min_not_occupied(s) <= u16::MAX ==> !s.contains(min_not_occupied(s) as u16),
{
    lemma_first_missing_from(s, 1);
}

proof fn lemma_first_missing_same_numbers(a: Seq<u16>, b: Seq<u16>, m: int)
    requires
        1 <= m <= 65536,
        forall|x: u16| a.contains(x) == b.contains(x),
    ensures
        first_missing_from(a, m) == first_missing_from(b, m),
    decreases 65536 - m,
{
    if m < 65536 {
        let x = m as u16;
        assert(a.contains(x) == b.contains(x));
        if a.contains(x) {
            lemma_first_missing_same_numbers(a, b, m + 1);
        }
    }
}

/// Only which numbers are given matters, not their order or repeats.
pub proof fn lemma_min_depends_on_the_set_only(a: Seq<u16>, b: Seq<u16>)
    requires
        a.to_set() == b.to_set(),
    ensures
        min_not_occupied(a) == min_not_occupied(b),
{
    assert forall|x: u16| a.contains(x) == b.contains(x) by {
        assert(a.to_set().contains(x) == a.contains(x));
        assert(b.to_set().contains(x) == b.contains(x));
        assert(a.to_set().contains(x) == b.to_set().contains(x));
    }
    lemma_first_missing_same_numbers(a, b, 1);
}

proof fn lemma_allocate_shape(s: Seq<u16>, k: nat)
    requires
        allocation_fits(s, k),
    ensures
        allocate(s, k).len() == s.len() + k,
        allocate(s, k).take(s.len() as int) == s,
        forall|i: int, j: int|
            0 <= i < j < allocate(s, k).len() && j >= s.len() ==> allocate(s, k)[i] != allocate(
                s,
                k,
            )[j],
    decreases k,
{
    if k == 0 {
        assert(allocate(s, k).take(s.len() as int) =~= s);
    } else {
        let r = min_not_occupied(s);
        let s2 = s.push(r as u16);
        lemma_min_not_occupied_is_least_missing(s);
        lemma_allocate_shape(s2, (k - 1) as nat);
        let a = allocate(s, k);
        assert(a == allocate(s2, (k - 1) as nat));
        assert(a.take(s2.len() as int) == s2);
        assert(a.take(s.len() as int) =~= s) by {
            assert forall|i: int| 0 <= i < s.len() implies a.take(s.len() as int)[i] == s[i] by {
                assert(a.take(s2.len() as int)[i] == s2[i]);
            }
        }
        assert forall|i: int, j: int| 0 <= i < j < a.len() && j >= s.len() implies a[i] != a[j] by {
            if j == s.len() {
                assert(a[j] == a.take(s2.len() as int)[j]);
                assert(a[i] == a.take(s2.len() as int)[i]);
                assert(a[j] == r as u16);
                assert(a[i] == s[i]);
                assert(s.contains(s[i]));
            }
        }
    }
}

/// Allocation keeps the numbers already taken, in their order, and adds
/// `k` new ones, each different from every number before it: a new socket
/// never takes the number of an existing or of another new socket.
pub proof fn lemma_allocation_is_fresh(s: Seq<u16>, k: nat)
    requires
        allocation_fits(s, k),
    ensures
        allocate(s, k).len() == s.len() + k,
        allocate(s, k).take(s.len() as int) == s,
        new_indices(s, k).len() == k,
        forall|i: int, j: int|
            0 <= i < j < allocate(s, k).len() && j >= s.len() ==> allocate(s, k)[i] != allocate(
                s,
                k,
            )[j],
        forall|i: int, j: int|
            0 <= i < s.len() && 0 <= j < k ==> #[trigger] s[i] != #[trigger] new_indices(s, k)[j],
{
    lemma_allocate_shape(s, k);
    let a = allocate(s, k);
    assert forall|i: int, j: int| 0 <= i < s.len() && 0 <= j < k implies #[trigger] s[i] != #[trigger] new_indices(s, k)[j] by {
        assert(new_indices(s, k)[j] == a[s.len() + j]);
        assert(a[i] == a.take(s.len() as int)[i]);
    }
}

} // verus!
