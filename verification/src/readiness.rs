//! Readiness detection for the cluster process. The supervisor reads the
//! process's standard output line by line and feeds each line to a scanner
//! that captures the endpoint port from the first line holding the port
//! marker and reports readiness once the terminal marker line arrives. The
//! dependent application server may only be spawned after readiness.

use crate::text::{contains_seq, contains_sub, last_token, last_token_spec};
use vstd::prelude::*;

verus! {

/// The marker of the line whose last column carries the endpoint port.
pub open spec fn port_marker() -> Seq<u8> {
    seq![
        'P' as u8,
        'D' as u8,
        ' ' as u8,
        'E' as u8,
        'n' as u8,
        'd' as u8,
        'p' as u8,
        'o' as u8,
        'i' as u8,
        'n' as u8,
        't' as u8,
        's' as u8,
    ]
}

/// The marker of the terminal line: once it appears, startup is complete.
pub open spec fn ready_marker() -> Seq<u8> {
    seq!['G' as u8, 'r' as u8, 'a' as u8, 'f' as u8, 'a' as u8, 'n' as u8, 'a' as u8, ':' as u8]
}

/// Executable bytes of `port_marker`.
pub fn port_marker_bytes() -> (r: Vec<u8>)
    ensures
        r@ == port_marker(),
{
    let v = vec![
        'P' as u8,
        'D' as u8,
        ' ' as u8,
        'E' as u8,
        'n' as u8,
        'd' as u8,
        'p' as u8,
        'o' as u8,
        'i' as u8,
        'n' as u8,
        't' as u8,
        's' as u8,
    ];
    proof {
        assert(v@ =~= port_marker());
    }
    v
}

/// Executable bytes of `ready_marker`.
pub fn ready_marker_bytes() -> (r: Vec<u8>)
    ensures
        r@ == ready_marker(),
{
    let v = vec![
        'G' as u8,
        'r' as u8,
        'a' as u8,
        'f' as u8,
        'a' as u8,
        'n' as u8,
        'a' as u8,
        ':' as u8,
    ];
    proof {
        assert(v@ =~= ready_marker());
    }
    v
}

/// Scanner state: the port captured so far (first occurrence only) and
/// whether the terminal marker has been observed.
pub struct ReadinessScanner {
    pub port: Option<Vec<u8>>,
    pub ready: bool,
}

impl ReadinessScanner {
    pub open spec fn port_spec(&self) -> Option<Seq<u8>> {
        match self.port {
            Option::Some(p) => Option::Some(p@),
            Option::None => Option::None,
        }
    }

    pub open spec fn ready_spec(&self) -> bool {
        self.ready
    }

    pub fn new() -> (r: Self)
        ensures
            r.port_spec() is None,
            !r.ready_spec(),
    {
        ReadinessScanner { port: None, ready: false }
    }

    pub fn is_ready(&self) -> (r: bool)
        ensures
            r == self.ready_spec(),
    {
        self.ready
    }

    /// The captured port, copied out.
    pub fn port_bytes(&self) -> (r: Option<Vec<u8>>)
        ensures
            match r {
                Option::Some(p) => self.port_spec() == Option::Some(p@),
                Option::None => self.port_spec() is None,
            },
    {
        match &self.port {
            Option::Some(p) => Option::Some(crate::text::copy_bytes(p)),
            Option::None => Option::None,
        }
    }

    /// Consumes one line of cluster output. After the terminal marker has
    /// been seen the scanner is inert. Before that, the first port-marker
    /// line's last token is retained as the port — later port-marker lines
    /// are ignored — and a terminal-marker line sets readiness.
    pub fn feed_line(&mut self, line: &[u8])
        ensures
            old(self).ready_spec() ==> *final (self) == *old(self),
            !old(self).ready_spec() ==> final (self).ready_spec() == contains_seq(
                line@,
                ready_marker(),
            ),
            !old(self).ready_spec() ==> final (self).port_spec() == (if old(self).port_spec()
                is None && contains_seq(line@, port_marker()) {
                Option::Some(last_token_spec(line@))
            } else {
                old(self).port_spec()
            }),
    {
        if self.ready {
            return ;
        }
        if self.port.is_none() {
            let marker = port_marker_bytes();
            if contains_sub(line, marker.as_slice()) {
                self.port = Some(last_token(line));
            }
        }
        let terminal = ready_marker_bytes();
        self.ready = contains_sub(line, terminal.as_slice());
    }
}

/// One scanner step at the level of the model state.
pub open spec fn scan_step(
    port: Option<Seq<u8>>,
    ready: bool,
    line: Seq<u8>,
) -> (Option<Seq<u8>>, bool) {
    if ready {
        (port, ready)
    } else {
        (
            if port is None && contains_seq(line, port_marker()) {
                Option::Some(last_token_spec(line))
            } else {
                port
            },
            contains_seq(line, ready_marker()),
        )
    }
}

/// The scanner state after a whole stream of lines.
pub open spec fn scan_fold(lines: Seq<Seq<u8>>) -> (Option<Seq<u8>>, bool)
    decreases lines.len(),
{
    if lines.len() == 0 {
        (Option::None, false)
    } else {
        let prev = scan_fold(lines.drop_last());
        scan_step(prev.0, prev.1, lines.last())
    }
}

/// Feeds every line of a bounded stream to a fresh scanner.
pub fn scan_lines(lines: &Vec<Vec<u8>>) -> (r: ReadinessScanner)
    ensures
        r.port_spec() == scan_fold(lines.deep_view()).0,
        r.ready_spec() == scan_fold(lines.deep_view()).1,
{
    let n = lines.len();
    let mut sc = ReadinessScanner::new();
    let mut i: usize = 0;
    proof {
        assert(lines.deep_view().len() == lines@.len());
        assert(lines.deep_view().take(0) =~= Seq::<Seq<u8>>::empty());
    }
    while i < n
        invariant
            n == lines@.len(),
            i <= n,
            lines.deep_view().len() == lines@.len(),
            sc.port_spec() == scan_fold(lines.deep_view().take(i as int)).0,
            sc.ready_spec() == scan_fold(lines.deep_view().take(i as int)).1,
        decreases n - i,
    {
        proof {
            assert(lines.deep_view().take(i + 1).drop_last() =~= lines.deep_view().take(i as int));
            assert(lines.deep_view().take(i + 1).last() == lines.deep_view()[i as int]);
            assert(lines.deep_view()[i as int] == lines@[i as int].deep_view());
            crate::text::lemma_bytes_deep_view(lines@[i as int]);
        }
        sc.feed_line(lines[i].as_slice());
        i += 1;
    }
    proof {
        assert(lines.deep_view().take(n as int) =~= lines.deep_view());
    }
    sc
}

/// A stream none of whose lines holds the terminal marker never yields
/// readiness.
pub proof fn lemma_no_terminal_no_ready(lines: Seq<Seq<u8>>)
    requires
        forall|i: int| 0 <= i < lines.len() ==> !contains_seq(#[trigger] lines[i], ready_marker()),
    ensures
        !scan_fold(lines).1,
    decreases lines.len(),
{
    if lines.len() > 0 {
        lemma_no_terminal_no_ready(lines.drop_last());
    }
}

/// A terminal-marker line anywhere in the stream yields readiness.
pub proof fn lemma_terminal_gives_ready(lines: Seq<Seq<u8>>)
    requires
        exists|i: int| 0 <= i < lines.len() && contains_seq(#[trigger] lines[i], ready_marker()),
    ensures
        scan_fold(lines).1,
    decreases lines.len(),
{
    let i = choose|i: int|
        0 <= i < lines.len() && contains_seq(#[trigger] lines[i], ready_marker());
    if i < lines.len() - 1 {
        assert(lines.drop_last()[i] == lines[i]);
        lemma_terminal_gives_ready(lines.drop_last());
    }
}

/// Before any marker has appeared the scanner is still in its initial state.
pub proof fn lemma_scan_inert(lines: Seq<Seq<u8>>)
    requires
        forall|i: int| 0 <= i < lines.len() ==> !contains_seq(#[trigger] lines[i], ready_marker()),
        forall|i: int| 0 <= i < lines.len() ==> !contains_seq(#[trigger] lines[i], port_marker()),
    ensures
        scan_fold(lines) == (Option::<Seq<u8>>::None, false),
    decreases lines.len(),
{
    if lines.len() > 0 {
        lemma_scan_inert(lines.drop_last());
    }
}

/// The port is captured from the first port-marker line of the stream, as
/// long as that line comes no later than the terminal marker.
pub proof fn lemma_port_first_occurrence(lines: Seq<Seq<u8>>, i: int)
    requires
        0 <= i < lines.len(),
        contains_seq(lines[i], port_marker()),
        forall|j: int| 0 <= j < i ==> !contains_seq(#[trigger] lines[j], port_marker()),
        forall|j: int| 0 <= j < i ==> !contains_seq(#[trigger] lines[j], ready_marker()),
    ensures
        scan_fold(lines).0 == Option::Some(last_token_spec(lines[i])),
    decreases lines.len(),
{
    if i < lines.len() - 1 {
        assert(lines.drop_last()[i] == lines[i]);
        assert(forall|j: int|
            0 <= j < i ==> !contains_seq(#[trigger] lines.drop_last()[j], port_marker()));
        assert(forall|j: int|
            0 <= j < i ==> !contains_seq(#[trigger] lines.drop_last()[j], ready_marker()));
        lemma_port_first_occurrence(lines.drop_last(), i);
    } else {
        lemma_scan_inert(lines.drop_last());
    }
}

} // verus!
