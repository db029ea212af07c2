//! A scripted stand-in for a GRBL controller on the serial link.
//!
//! The mock answers status polls, realtime commands and the device-inspection
//! queries from a script that tests fill in. Moving the mock's position for a
//! step jog, and re-rendering a status line in another mode, is arithmetic on
//! the reported coordinates; [`MockTransport::write`] reports when that is due
//! and the caller supplies the new status line.
use vstd::prelude::*;

use crate::text::{chars_of, dec, push_dec, push_str, starts_with, string_from_chars};

verus! {

/// The status line the mock reports until told otherwise.
pub const DEFAULT_STATUS: &'static str = "<Idle|MPos:0.000,0.000,0.000|WPos:0.000,0.000,0.000|FS:0,0>";

/// The status line reported while an alarm is queued.
pub const ALARM_STATUS: &'static str = "<Alarm|MPos:0.000,0.000,0.000|FS:0,0>";

/// The banner printed after a soft reset.
pub const RESET_BANNER: &'static str = "Grbl 1.1h ['$' for help]";

/// What a read from the mock yields.
#[derive(Debug)]
pub enum MockRead {
    Line(String),
    /// The read never completes.
    Stall,
    /// The link drops.
    Disconnect,
}

pub enum ReadV {
    Line(Seq<char>),
    Stall,
    Disconnect,
}

impl View for MockRead {
    type V = ReadV;

    open spec fn view(&self) -> ReadV {
        match self {
            MockRead::Line(l) => ReadV::Line(l@),
            MockRead::Stall => ReadV::Stall,
            MockRead::Disconnect => ReadV::Disconnect,
        }
    }
}

pub open spec fn reads_view(v: Seq<MockRead>) -> Seq<ReadV> {
    v.map_values(|r: MockRead| r@)
}

pub open spec fn cycles_view(v: Seq<Vec<MockRead>>) -> Seq<Seq<ReadV>> {
    v.map_values(|c: Vec<MockRead>| reads_view(c@))
}

pub open spec fn bytes_view(v: Seq<Vec<u8>>) -> Seq<Seq<u8>> {
    v.map_values(|b: Vec<u8>| b@)
}

/// Failures of the link.
#[derive(Clone, Copy, Debug, PartialEq, Eq, Structural)]
pub enum TransportError {
    NotConnected,
    NoData,
}

/// The scripted controller state.
#[derive(Debug)]
pub struct MockControl {
    connected: bool,
    status_line: String,
    planned_cycles: Vec<Vec<MockRead>>,
    planned_queries: Vec<Vec<MockRead>>,
    active_reads: Vec<MockRead>,
    writes: Vec<Vec<u8>>,
    jog_polls_remaining: u32,
}

/// The state of the mock controller.
pub struct MockV {
    pub connected: bool,
    pub status: Seq<char>,
    /// Answers queued for the next status polls, one group per poll.
    pub cycles: Seq<Seq<ReadV>>,
    /// Answers queued for the next inspection queries, one group per query.
    pub queries: Seq<Seq<ReadV>>,
    /// Lines waiting to be read.
    pub active: Seq<ReadV>,
    /// Every write received, in order.
    pub writes: Seq<Seq<u8>>,
    pub jog_polls: u32,
}

impl View for MockControl {
    type V = MockV;

    closed spec fn view(&self) -> MockV {
        MockV {
            connected: self.connected,
            status: self.status_line@,
            cycles: cycles_view(self.planned_cycles@),
            queries: cycles_view(self.planned_queries@),
            active: reads_view(self.active_reads@),
            writes: bytes_view(self.writes@),
            jog_polls: self.jog_polls_remaining,
        }
    }
}

/// The reset banner of the given firmware version.
pub open spec fn banner(version: Seq<char>) -> Seq<char> {
    "Grbl "@ + version + " ['$' for help]"@
}

/// The mock after the script changed only what `f` changes.
pub open spec fn same_link(a: MockV, b: MockV) -> bool {
    &&& a.connected == b.connected
    &&& a.active == b.active
    &&& a.writes == b.writes
    &&& a.jog_polls == b.jog_polls
}

fn copy_bytes(s: &[u8]) -> (r: Vec<u8>)
    ensures
        r@ == s@,
{
    let mut r: Vec<u8> = Vec::new();
    let mut i: usize = 0;
    while i < s.len()
        invariant
            i <= s.len(),
            r@ == s@.take(i as int),
        decreases s.len() - i,
    {
        r.push(s[i]);
        i = i + 1;
        assert(r@ =~= s@.take(i as int));
    }
    assert(s@.take(s.len() as int) =~= s@);
    r
}

fn line(s: Vec<char>) -> (r: MockRead)
    ensures
        r@ == ReadV::Line(s@),
{
    MockRead::Line(string_from_chars(s.as_slice()))
}

fn literal_line(s: &str) -> (r: MockRead)
    ensures
        r@ == ReadV::Line(s@),
{
    MockRead::Line(s.to_owned())
}

impl MockControl {
    /// Sets the status line reported to the next polls.
    pub fn set_status(&mut self, status_line: String)
        ensures
            final(self)@.status == status_line@,
            final(self)@.cycles == old(self)@.cycles,
            final(self)@.queries == old(self)@.queries,
            same_link(final(self)@, old(self)@),
    {
        self.status_line = status_line;
    }

    fn push_cycle(&mut self, cycle: Vec<MockRead>)
        ensures
            final(self)@.cycles == old(self)@.cycles.push(reads_view(cycle@)),
            final(self)@.status == old(self)@.status,
            final(self)@.queries == old(self)@.queries,
            same_link(final(self)@, old(self)@),
    {
        let ghost before = self.planned_cycles@;
        self.planned_cycles.push(cycle);
        assert(cycles_view(self.planned_cycles@) =~= cycles_view(before).push(reads_view(cycle@)));
    }

    fn push_query(&mut self, answer: Vec<MockRead>)
        ensures
            final(self)@.queries == old(self)@.queries.push(reads_view(answer@)),
            final(self)@.status == old(self)@.status,
            final(self)@.cycles == old(self)@.cycles,
            same_link(final(self)@, old(self)@),
    {
        let ghost before = self.planned_queries@;
        self.planned_queries.push(answer);
        assert(cycles_view(self.planned_queries@) =~= cycles_view(before).push(
            reads_view(answer@),
        ));
    }

    /// The next poll answers with a reset banner, then the current status.
    pub fn queue_reset(&mut self, version: &str)
        ensures
            final(self)@.cycles == old(self)@.cycles.push(
                seq![ReadV::Line(banner(version@)), ReadV::Line(old(self)@.status)],
            ),
            final(self)@.status == old(self)@.status,
            final(self)@.queries == old(self)@.queries,
            same_link(final(self)@, old(self)@),
    {
        let mut text: Vec<char> = Vec::new();
        push_str(&mut text, "Grbl ");
        push_str(&mut text, version);
        push_str(&mut text, " ['$' for help]");
        let status = self.status_line.clone();
        let cycle = vec![line(text), MockRead::Line(status)];
        assert(reads_view(cycle@) =~= seq![
            ReadV::Line(banner(version@)),
            ReadV::Line(old(self)@.status),
        ]);
        self.push_cycle(cycle);
    }

    /// The status switches to an alarm; the next poll answers `ALARM:<code>`
    /// and the alarm status.
    pub fn queue_alarm(&mut self, code: u16)
        ensures
            final(self)@.status == ALARM_STATUS@,
            final(self)@.cycles == old(self)@.cycles.push(
                seq![
                    ReadV::Line("ALARM:"@ + dec(code as nat)),
                    ReadV::Line(ALARM_STATUS@),
                ],
            ),
            final(self)@.queries == old(self)@.queries,
            same_link(final(self)@, old(self)@),
    {
        let mut text: Vec<char> = Vec::new();
        push_str(&mut text, "ALARM:");
        push_dec(&mut text, code as u64);
        self.status_line = ALARM_STATUS.to_owned();
        let cycle = vec![line(text), literal_line(ALARM_STATUS)];
        assert(reads_view(cycle@) =~= seq![
            ReadV::Line("ALARM:"@ + dec(code as nat)),
            ReadV::Line(ALARM_STATUS@),
        ]);
        self.push_cycle(cycle);
    }

    /// Returns the status to the idle default.
    pub fn clear_alarm(&mut self)
        ensures
            final(self)@.status == DEFAULT_STATUS@,
            final(self)@.cycles == old(self)@.cycles,
            final(self)@.queries == old(self)@.queries,
            same_link(final(self)@, old(self)@),
    {
        self.set_status(DEFAULT_STATUS.to_owned());
    }

    /// The next poll never gets an answer.
    pub fn queue_stall(&mut self)
        ensures
            final(self)@.cycles == old(self)@.cycles.push(seq![ReadV::Stall]),
            final(self)@.status == old(self)@.status,
            final(self)@.queries == old(self)@.queries,
            same_link(final(self)@, old(self)@),
    {
        let cycle = vec![MockRead::Stall];
        assert(reads_view(cycle@) =~= seq![ReadV::Stall]);
        self.push_cycle(cycle);
    }

    /// The next poll drops the link.
    pub fn queue_disconnect(&mut self)
        ensures
            final(self)@.cycles == old(self)@.cycles.push(seq![ReadV::Disconnect]),
            final(self)@.status == old(self)@.status,
            final(self)@.queries == old(self)@.queries,
            same_link(final(self)@, old(self)@),
    {
        let cycle = vec![MockRead::Disconnect];
        assert(reads_view(cycle@) =~= seq![ReadV::Disconnect]);
        self.push_cycle(cycle);
    }

    /// The next inspection query answers `error:<code>`.
    pub fn queue_query_error(&mut self, code: u16)
        ensures
            final(self)@.queries == old(self)@.queries.push(
                seq![ReadV::Line("error:"@ + dec(code as nat))],
            ),
            final(self)@.status == old(self)@.status,
            final(self)@.cycles == old(self)@.cycles,
            same_link(final(self)@, old(self)@),
    {
        let mut text: Vec<char> = Vec::new();
        push_str(&mut text, "error:");
        push_dec(&mut text, code as u64);
        let answer = vec![line(text)];
        assert(reads_view(answer@) =~= seq![ReadV::Line("error:"@ + dec(code as nat))]);
        self.push_query(answer);
    }

    /// The next inspection query answers `ALARM:<code>`.
    pub fn queue_query_alarm(&mut self, code: u16)
        ensures
            final(self)@.queries == old(self)@.queries.push(
                seq![ReadV::Line("ALARM:"@ + dec(code as nat))],
            ),
            final(self)@.status == old(self)@.status,
            final(self)@.cycles == old(self)@.cycles,
            same_link(final(self)@, old(self)@),
    {
        let mut text: Vec<char> = Vec::new();
        push_str(&mut text, "ALARM:");
        push_dec(&mut text, code as u64);
        let answer = vec![line(text)];
        assert(reads_view(answer@) =~= seq![ReadV::Line("ALARM:"@ + dec(code as nat))]);
        self.push_query(answer);
    }

    /// A copy of every write received so far.
    pub fn writes(&self) -> (r: Vec<Vec<u8>>)
        ensures
            bytes_view(r@) == self@.writes,
    {
        let mut r: Vec<Vec<u8>> = Vec::new();
        let mut i: usize = 0;
        while i < self.writes.len()
            invariant
                i <= self.writes@.len(),
                bytes_view(r@) == bytes_view(self.writes@).take(i as int),
            decreases self.writes.len() - i,
        {
            let copy = copy_bytes(self.writes[i].as_slice());
            let ghost before = r@;
            r.push(copy);
            assert(bytes_view(r@) =~= bytes_view(before).push(self.writes@[i as int]@));
            i = i + 1;
            assert(bytes_view(r@) =~= bytes_view(self.writes@).take(i as int));
        }
        assert(bytes_view(self.writes@).take(self.writes@.len() as int) =~= bytes_view(
            self.writes@,
        ));
        r
    }
}


// ---------------------------------------------------------------------------
// The link
// ---------------------------------------------------------------------------

/// Whether `p` occurs in `s` at `i`.
pub open spec fn occurs_at(s: Seq<char>, p: Seq<char>, i: int) -> bool {
    0 <= i && i + p.len() <= s.len() && s.subrange(i, i + p.len()) == p
}

/// The first occurrence of `p` in `s` at or after `i`.
pub open spec fn find_from(s: Seq<char>, p: Seq<char>, i: nat) -> Option<nat>
    decreases s.len() - i,
{
    if i + p.len() > s.len() {
        None
    } else if occurs_at(s, p, i as int) {
        Some(i)
    } else if i >= s.len() {
        None
    } else {
        find_from(s, p, i + 1)
    }
}

/// `str::replacen(from, to, 1)`.
pub open spec fn replace_first(s: Seq<char>, from: Seq<char>, to: Seq<char>) -> Seq<char> {
    match find_from(s, from, 0) {
        Some(i) => s.take(i as int) + to + s.skip(i as int + from.len()),
        None => s,
    }
}

/// What the caller still has to do after a write.
#[derive(Clone, Copy, Debug, PartialEq, Eq, Structural)]
pub enum WriteEffect {
    /// Nothing.
    Done,
    /// A jog's last status poll was answered: the status becomes the same
    /// position in `Idle` with zero feed.
    JogFinished,
    /// A jog was cancelled: the status becomes the same position in `Idle`
    /// with zero feed.
    JogCancelled,
    /// A step jog was accepted: the caller moves the position, sets the jog
    /// status and its poll count with [`MockTransport::start_jog`].
    StepJog,
}

/// The answers to the four inspection queries when none is scripted.
pub open spec fn query_answer(data: Seq<u8>) -> Option<Seq<ReadV>> {
    if data == seq![36u8, 73u8, 10u8] {
        Some(
            seq![
                ReadV::Line("[VER:1.1h.20240101:Millo Mock]"@),
                ReadV::Line("[OPT:V,15,128]"@),
                ReadV::Line("ok"@),
            ],
        )
    } else if data == seq![36u8, 36u8, 10u8] {
        Some(
            seq![
                ReadV::Line("$0=10"@),
                ReadV::Line("$6=0"@),
                ReadV::Line("$10=3"@),
                ReadV::Line("$20=0"@),
                ReadV::Line("$21=0"@),
                ReadV::Line("$22=0"@),
                ReadV::Line("$30=12000"@),
                ReadV::Line("$31=0"@),
                ReadV::Line("$32=0"@),
                ReadV::Line("$100=250.000"@),
                ReadV::Line("$101=250.000"@),
                ReadV::Line("$102=250.000"@),
                ReadV::Line("$110=1000.000"@),
                ReadV::Line("$111=1000.000"@),
                ReadV::Line("$112=500.000"@),
                ReadV::Line("$120=50.000"@),
                ReadV::Line("$121=50.000"@),
                ReadV::Line("$122=30.000"@),
                ReadV::Line("$130=300.000"@),
                ReadV::Line("$131=180.000"@),
                ReadV::Line("$132=80.000"@),
                ReadV::Line("ok"@),
            ],
        )
    } else if data == seq![36u8, 71u8, 10u8] {
        Some(seq![ReadV::Line("[GC:G0 G54 G17 G21 G90 G94 M5 M9 T0 F0 S0]"@), ReadV::Line("ok"@)])
    } else if data == seq![36u8, 35u8, 10u8] {
        Some(
            seq![
                ReadV::Line("[G54:0.000,0.000,0.000]"@),
                ReadV::Line("[G92:0.000,0.000,0.000]"@),
                ReadV::Line("[TLO:0.000]"@),
                ReadV::Line("[PRB:0.000,0.000,0.000:0]"@),
                ReadV::Line("ok"@),
            ],
        )
    } else {
        None
    }
}

/// The mock's answer to one write, given whether the bytes are a step jog
/// (`$J=G91 G21 <X|Y|Z><distance> F<feed>`).
pub open spec fn write_step(m: MockV, data: Seq<u8>, step_jog: bool) -> Result<
    (MockV, WriteEffect),
    TransportError,
> {
    if !m.connected {
        Err(TransportError::NotConnected)
    } else {
        let w = MockV { writes: m.writes.push(data), ..m };
        if data == seq![63u8] {
            if w.cycles.len() > 0 {
                Ok(
                    (
                        MockV { cycles: w.cycles.drop_first(), active: w.active + w.cycles[0], ..w },
                        WriteEffect::Done,
                    ),
                )
            } else if starts_with(w.status, "<Jog"@) {
                let polls: u32 = if w.jog_polls > 0 {
                    (w.jog_polls - 1) as u32
                } else {
                    0
                };
                Ok(
                    (
                        MockV {
                            jog_polls: polls,
                            active: w.active.push(ReadV::Line(w.status)),
                            ..w
                        },
                        if polls == 0 {
                            WriteEffect::JogFinished
                        } else {
                            WriteEffect::Done
                        },
                    ),
                )
            } else {
                Ok((MockV { active: w.active.push(ReadV::Line(w.status)), ..w }, WriteEffect::Done))
            }
        } else if data == seq![33u8] {
            if starts_with(w.status, "<Run"@) || starts_with(w.status, "<Jog"@) {
                Ok(
                    (
                        MockV {
                            status: replace_first(
                                replace_first(w.status, "<Run"@, "<Hold:0"@),
                                "<Jog"@,
                                "<Hold:0"@,
                            ),
                            jog_polls: 0,
                            ..w
                        },
                        WriteEffect::Done,
                    ),
                )
            } else {
                Ok((w, WriteEffect::Done))
            }
        } else if data == seq![24u8] {
            Ok(
                (
                    MockV {
                        status: DEFAULT_STATUS@,
                        jog_polls: 0,
                        active: w.active.push(ReadV::Line(RESET_BANNER@)),
                        ..w
                    },
                    WriteEffect::Done,
                ),
            )
        } else if data == seq![133u8] {
            if starts_with(w.status, "<Jog"@) {
                Ok((MockV { jog_polls: 0, ..w }, WriteEffect::JogCancelled))
            } else {
                Ok((w, WriteEffect::Done))
            }
        } else if step_jog {
            Ok((w, WriteEffect::StepJog))
        } else {
            match query_answer(data) {
                Some(answer) => if w.queries.len() > 0 {
                    Ok(
                        (
                            MockV {
                                queries: w.queries.drop_first(),
                                active: w.active + w.queries[0],
                                ..w
                            },
                            WriteEffect::Done,
                        ),
                    )
                } else {
                    Ok((MockV { active: w.active + answer, ..w }, WriteEffect::Done))
                },
                None => Ok((w, WriteEffect::Done)),
            }
        }
    }
}

/// What a read returned.
#[derive(Debug)]
pub enum ReadOutcome {
    Line(String),
    /// The read never completes.
    Stall,
}

/// A mock serial link in front of the scripted controller.
#[derive(Debug)]
pub struct MockTransport {
    control: MockControl,
}

fn find_sub(s: &[char], p: &[char]) -> (r: Option<usize>)
    ensures
        match r {
            Some(i) => find_from(s@, p@, 0) == Some(i as nat) && i + p@.len() <= s@.len(),
            None => find_from(s@, p@, 0) is None,
        },
{
    if p.len() > s.len() {
        return None;
    }
    let mut i: usize = 0;
    while i <= s.len() - p.len()
        invariant
            p.len() <= s.len(),
            find_from(s@, p@, 0) == find_from(s@, p@, i as nat),
        decreases s.len() - i,
    {
        let mut k: usize = 0;
        let mut same = true;
        while k < p.len()
            invariant
                i + p.len() <= s.len(),
                k <= p.len(),
                same == (forall|m: int| 0 <= m < k ==> s@[i + m] == p@[m]),
            decreases p.len() - k,
        {
            if s[i + k] != p[k] {
                same = false;
            }
            k = k + 1;
        }
        proof {
            if same {
                assert(s@.subrange(i as int, i + p@.len()) =~= p@);
            } else {
                let m = choose|m: int| 0 <= m < p@.len() && s@[i + m] != p@[m];
                assert(s@.subrange(i as int, i + p@.len())[m] != p@[m]);
            }
        }
        if same {
            return Some(i);
        }
        if i >= s.len() {
            return None;
        }
        i = i + 1;
    }
    None
}

fn replace_first_exec(s: &[char], from: &str, to: &str) -> (r: Vec<char>)
    ensures
        r@ == replace_first(s@, from@, to@),
{
    let f = chars_of(from);
    let fs = f.as_slice();
    match find_sub(s, fs) {
        Some(i) => {
            assert(fs@ == f@);
            assert(i + f.len() <= s.len());
            let mut r = crate::text::slice_chars(s, 0, i);
            push_str(&mut r, to);
            let tail = crate::text::slice_chars(s, i + f.len(), s.len());
            crate::text::push_chars(&mut r, tail.as_slice());
            assert(r@ =~= s@.take(i as int) + to@ + s@.skip(i as int + from@.len()));
            r
        },
        None => crate::text::slice_chars(s, 0, s.len()),
    }
}

fn status_starts_with(status: &String, p: &str) -> (r: bool)
    ensures
        r == starts_with(status@, p@),
{
    let cs = chars_of(status.as_str());
    assert(cs@.skip(0) =~= cs@);
    crate::text::has_prefix_at(cs.as_slice(), 0, p)
}

fn query_answer_exec(data: &[u8]) -> (r: Option<Vec<MockRead>>)
    ensures
        match r {
            Some(v) => query_answer(data@) == Some(reads_view(v@)),
            None => query_answer(data@) is None,
        },
{
    if data.len() != 3 || data[0] != 36u8 || data[2] != 10u8 {
        proof {
            if data@.len() == 3 {
                assert(data@ != seq![36u8, 73u8, 10u8]);
                assert(data@ != seq![36u8, 36u8, 10u8]);
                assert(data@ != seq![36u8, 71u8, 10u8]);
                assert(data@ != seq![36u8, 35u8, 10u8]);
            }
        }
        return None;
    }
    let c = data[1];
    if c == 73u8 {
        assert(data@ =~= seq![36u8, 73u8, 10u8]);
        let v = vec![
            literal_line("[VER:1.1h.20240101:Millo Mock]"),
            literal_line("[OPT:V,15,128]"),
            literal_line("ok"),
        ];
        assert(reads_view(v@) =~= query_answer(data@).unwrap());
        Some(v)
    } else if c == 36u8 {
        assert(data@ =~= seq![36u8, 36u8, 10u8]);
        let v = vec![
            literal_line("$0=10"),
            literal_line("$6=0"),
            literal_line("$10=3"),
            literal_line("$20=0"),
            literal_line("$21=0"),
            literal_line("$22=0"),
            literal_line("$30=12000"),
            literal_line("$31=0"),
            literal_line("$32=0"),
            literal_line("$100=250.000"),
            literal_line("$101=250.000"),
            literal_line("$102=250.000"),
            literal_line("$110=1000.000"),
            literal_line("$111=1000.000"),
            literal_line("$112=500.000"),
            literal_line("$120=50.000"),
            literal_line("$121=50.000"),
            literal_line("$122=30.000"),
            literal_line("$130=300.000"),
            literal_line("$131=180.000"),
            literal_line("$132=80.000"),
            literal_line("ok"),
        ];
        assert(reads_view(v@) =~= query_answer(data@).unwrap());
        Some(v)
    } else if c == 71u8 {
        assert(data@ =~= seq![36u8, 71u8, 10u8]);
        let v = vec![literal_line("[GC:G0 G54 G17 G21 G90 G94 M5 M9 T0 F0 S0]"), literal_line("ok")];
        assert(reads_view(v@) =~= query_answer(data@).unwrap());
        Some(v)
    } else if c == 35u8 {
        assert(data@ =~= seq![36u8, 35u8, 10u8]);
        let v = vec![
            literal_line("[G54:0.000,0.000,0.000]"),
            literal_line("[G92:0.000,0.000,0.000]"),
            literal_line("[TLO:0.000]"),
            literal_line("[PRB:0.000,0.000,0.000:0]"),
            literal_line("ok"),
        ];
        assert(reads_view(v@) =~= query_answer(data@).unwrap());
        Some(v)
    } else {
        assert(data@ != seq![36u8, 73u8, 10u8]);
        assert(data@ != seq![36u8, 36u8, 10u8]);
        assert(data@ != seq![36u8, 71u8, 10u8]);
        assert(data@ != seq![36u8, 35u8, 10u8]);
        None
    }
}


impl MockControl {
    fn append_reads(&mut self, reads: Vec<MockRead>)
        ensures
            final(self)@ == (MockV { active: old(self)@.active + reads_view(reads@), ..old(self)@ }),
    {
        let ghost before = self.active_reads@;
        let ghost added = reads@;
        let mut reads = reads;
        self.active_reads.append(&mut reads);
        assert(reads_view(self.active_reads@) =~= reads_view(before) + reads_view(added));
    }

    fn push_read(&mut self, read: MockRead)
        ensures
            final(self)@ == (MockV { active: old(self)@.active.push(read@), ..old(self)@ }),
    {
        let ghost before = self.active_reads@;
        self.active_reads.push(read);
        assert(reads_view(self.active_reads@) =~= reads_view(before).push(read@));
    }

    fn record_write(&mut self, data: &[u8])
        ensures
            final(self)@ == (MockV { writes: old(self)@.writes.push(data@), ..old(self)@ }),
    {
        let ghost before = self.writes@;
        let copy = copy_bytes(data);
        self.writes.push(copy);
        assert(bytes_view(self.writes@) =~= bytes_view(before).push(data@));
    }
}

impl Default for MockTransport {
    fn default() -> (r: Self)
        ensures
            r@ == (MockV {
                connected: false,
                status: DEFAULT_STATUS@,
                cycles: Seq::empty(),
                queries: Seq::empty(),
                active: Seq::empty(),
                writes: Seq::empty(),
                jog_polls: 0,
            }),
    {
        Self::with_status(DEFAULT_STATUS.to_owned())
    }
}

impl View for MockTransport {
    type V = MockV;

    closed spec fn view(&self) -> MockV {
        self.control@
    }
}

impl MockTransport {
    /// A disconnected mock that reports `status_line` and has nothing scripted.
    pub fn with_status(status_line: String) -> (r: Self)
        ensures
            r@ == (MockV {
                connected: false,
                status: status_line@,
                cycles: Seq::empty(),
                queries: Seq::empty(),
                active: Seq::empty(),
                writes: Seq::empty(),
                jog_polls: 0,
            }),
    {
        let r = MockTransport {
            control: MockControl {
                connected: false,
                status_line,
                planned_cycles: Vec::new(),
                planned_queries: Vec::new(),
                active_reads: Vec::new(),
                writes: Vec::new(),
                jog_polls_remaining: 0,
            },
        };
        assert(cycles_view(r.control.planned_cycles@) =~= Seq::<Seq<ReadV>>::empty());
        assert(cycles_view(r.control.planned_queries@) =~= Seq::<Seq<ReadV>>::empty());
        assert(reads_view(r.control.active_reads@) =~= Seq::<ReadV>::empty());
        assert(bytes_view(r.control.writes@) =~= Seq::<Seq<u8>>::empty());
        r
    }

    /// The script of the controller behind this link.
    pub fn control(&mut self) -> (r: &mut MockControl)
        ensures
            r@ == old(self)@,
            final(self)@ == final(r)@,
    {
        &mut self.control
    }

    pub fn connect(&mut self)
        ensures
            final(self)@ == (MockV { connected: true, ..old(self)@ }),
    {
        self.control.connected = true;
    }

    /// Drops the link and whatever was waiting to be read.
    pub fn disconnect(&mut self)
        ensures
            final(self)@ == (MockV { connected: false, active: Seq::empty(), ..old(self)@ }),
    {
        self.control.connected = false;
        self.control.active_reads.clear();
        assert(reads_view(self.control.active_reads@) =~= Seq::<ReadV>::empty());
    }

    pub fn is_connected(&self) -> (r: bool)
        ensures
            r == self@.connected,
    {
        self.control.connected
    }

    /// Sends bytes to the mock controller. `step_jog` tells whether the bytes
    /// are a well-formed step jog, which only the caller can read.
    pub fn write(&mut self, data: &[u8], step_jog: bool) -> (r: Result<WriteEffect, TransportError>)
        ensures
            match write_step(old(self)@, data@, step_jog) {
                Ok((next, effect)) => r == Ok::<WriteEffect, TransportError>(effect) && final(self)@
                    == next,
                Err(e) => r == Err::<WriteEffect, TransportError>(e) && final(self)@ == old(
                    self,
                )@,
            },
    {
        if !self.control.connected {
            return Err(TransportError::NotConnected);
        }
        self.control.record_write(data);
        if data.len() == 1 && data[0] == 63u8 {
            assert(data@ =~= seq![63u8]);
            if self.control.planned_cycles.len() > 0 {
                let ghost cv = cycles_view(self.control.planned_cycles@);
                let cycle = self.control.planned_cycles.remove(0);
                assert(cycles_view(self.control.planned_cycles@) =~= cv.drop_first());
                self.control.append_reads(cycle);
                return Ok(WriteEffect::Done);
            }
            let status = self.control.status_line.clone();
            if status_starts_with(&status, "<Jog") {
                self.control.jog_polls_remaining = self.control.jog_polls_remaining.saturating_sub(
                    1,
                );
                self.control.push_read(MockRead::Line(status));
                if self.control.jog_polls_remaining == 0 {
                    return Ok(WriteEffect::JogFinished);
                }
                return Ok(WriteEffect::Done);
            }
            self.control.push_read(MockRead::Line(status));
            return Ok(WriteEffect::Done);
        }
        assert(data@ != seq![63u8]);
        if data.len() == 1 && data[0] == 33u8 {
            assert(data@ =~= seq![33u8]);
            if status_starts_with(&self.control.status_line, "<Run") || status_starts_with(
                &self.control.status_line,
                "<Jog",
            ) {
                let cs = chars_of(self.control.status_line.as_str());
                let once = replace_first_exec(cs.as_slice(), "<Run", "<Hold:0");
                let twice = replace_first_exec(once.as_slice(), "<Jog", "<Hold:0");
                self.control.status_line = string_from_chars(twice.as_slice());
                self.control.jog_polls_remaining = 0;
            }
            return Ok(WriteEffect::Done);
        }
        assert(data@ != seq![33u8]);
        if data.len() == 1 && data[0] == 24u8 {
            assert(data@ =~= seq![24u8]);
            self.control.status_line = DEFAULT_STATUS.to_owned();
            self.control.jog_polls_remaining = 0;
            self.control.push_read(literal_line(RESET_BANNER));
            return Ok(WriteEffect::Done);
        }
        assert(data@ != seq![24u8]);
        if data.len() == 1 && data[0] == 133u8 {
            assert(data@ =~= seq![133u8]);
            if status_starts_with(&self.control.status_line, "<Jog") {
                self.control.jog_polls_remaining = 0;
                return Ok(WriteEffect::JogCancelled);
            }
            return Ok(WriteEffect::Done);
        }
        assert(data@ != seq![133u8]);
        if step_jog {
            return Ok(WriteEffect::StepJog);
        }
        match query_answer_exec(data) {
            Some(answer) => {
                if self.control.planned_queries.len() > 0 {
                    let ghost qv = cycles_view(self.control.planned_queries@);
                    let planned = self.control.planned_queries.remove(0);
                    assert(cycles_view(self.control.planned_queries@) =~= qv.drop_first());
                    self.control.append_reads(planned);
                } else {
                    self.control.append_reads(answer);
                }
                Ok(WriteEffect::Done)
            },
            None => Ok(WriteEffect::Done),
        }
    }

    /// Completes a step jog: the jog status, how many polls it stays active, and `ok`.
    pub fn start_jog(&mut self, status_line: String, polls: u32)
        ensures
            final(self)@ == (MockV {
                status: status_line@,
                jog_polls: polls,
                active: old(self)@.active.push(ReadV::Line("ok"@)),
                ..old(self)@
            }),
    {
        self.control.status_line = status_line;
        self.control.jog_polls_remaining = polls;
        self.control.push_read(literal_line("ok"));
    }

    /// Sets the status line after a finished or cancelled jog.
    pub fn set_status(&mut self, status_line: String)
        ensures
            final(self)@ == (MockV { status: status_line@, ..old(self)@ }),
    {
        self.control.status_line = status_line;
    }

    /// The status line the next poll reports.
    pub fn status_line(&self) -> (r: String)
        ensures
            r@ == self@.status,
    {
        self.control.status_line.clone()
    }

    /// Takes the next waiting read. A scripted disconnect drops the link.
    pub fn read_line(&mut self) -> (r: Result<ReadOutcome, TransportError>)
        ensures
            !old(self)@.connected ==> r == Err::<ReadOutcome, TransportError>(
                TransportError::NotConnected,
            ) && final(self)@ == old(self)@,
            old(self)@.connected && old(self)@.active.len() == 0 ==> r == Err::<
                ReadOutcome,
                TransportError,
            >(TransportError::NoData) && final(self)@ == old(self)@,
            old(self)@.connected && old(self)@.active.len() > 0 ==> match old(self)@.active[0] {
                ReadV::Line(l) => (r matches Ok(ReadOutcome::Line(s)) && s@ == l) && final(self)@
                    == (MockV { active: old(self)@.active.drop_first(), ..old(self)@ }),
                ReadV::Stall => (r matches Ok(ReadOutcome::Stall)) && final(self)@ == (MockV {
                    active: old(self)@.active.drop_first(),
                    ..old(self)@
                }),
                ReadV::Disconnect => r == Err::<ReadOutcome, TransportError>(
                    TransportError::NotConnected,
                ) && final(self)@ == (MockV {
                    connected: false,
                    active: old(self)@.active.drop_first(),
                    ..old(self)@
                }),
            },
    {
        if !self.control.connected {
            return Err(TransportError::NotConnected);
        }
        if self.control.active_reads.len() == 0 {
            return Err(TransportError::NoData);
        }
        let ghost av = reads_view(self.control.active_reads@);
        let read = self.control.active_reads.remove(0);
        assert(reads_view(self.control.active_reads@) =~= av.drop_first());
        match read {
            MockRead::Line(l) => Ok(ReadOutcome::Line(l)),
            MockRead::Stall => Ok(ReadOutcome::Stall),
            MockRead::Disconnect => {
                self.control.connected = false;
                Err(TransportError::NotConnected)
            },
        }
    }
}


/// With no scripted cycle and nothing unread, a status poll (`?`) queues
/// exactly the current status line for the next read, whatever the status.
pub proof fn lemma_poll_answers_with_the_current_status(m: MockV)
    requires
        m.connected,
        m.cycles.len() == 0,
        m.active.len() == 0,
    ensures
        write_step(m, seq![63u8], false) matches Ok((next, _)) && next.active == seq![ReadV::Line(m.status)],
{
    assert(Seq::<ReadV>::empty().push(ReadV::Line(m.status)) =~= seq![ReadV::Line(m.status)]);
}

/// The record of writes is exactly the writes the link accepted: an accepted
/// write appends its bytes and stays connected, and the only refusal is a
/// write while disconnected, which changes nothing.
pub proof fn lemma_writes_record_exactly_the_accepted_writes(m: MockV, data: Seq<u8>, step_jog: bool)
    ensures
        match write_step(m, data, step_jog) {
            Ok((next, _)) => m.connected && next.connected && next.writes == m.writes.push(data),
            Err(e) => !m.connected && e == TransportError::NotConnected,
        },
{
}

/// With nothing scripted and no jog under way, a status poll answers the current
/// status line and leaves it as it is: a queued alarm status persists until the
/// script clears it.
pub proof fn lemma_poll_repeats_status(m: MockV)
    requires
        m.connected,
        m.cycles.len() == 0,
        !starts_with(m.status, "<Jog"@),
    ensures
        write_step(m, seq![63u8], false) == Ok::<(MockV, WriteEffect), TransportError>(
            (
                MockV {
                    writes: m.writes.push(seq![63u8]),
                    active: m.active.push(ReadV::Line(m.status)),
                    ..m
                },
                WriteEffect::Done,
            ),
        ),
{
}

/// A scripted poll cycle is answered whole and in order, before the status line.
pub proof fn lemma_scripted_cycle_in_order(m: MockV)
    requires
        m.connected,
        m.cycles.len() > 0,
    ensures
        write_step(m, seq![63u8], false) == Ok::<(MockV, WriteEffect), TransportError>(
            (
                MockV {
                    writes: m.writes.push(seq![63u8]),
                    cycles: m.cycles.drop_first(),
                    active: m.active + m.cycles[0],
                    ..m
                },
                WriteEffect::Done,
            ),
        ),
{
}

/// A soft reset returns the mock to the idle default and emits the banner.
pub proof fn lemma_soft_reset_returns_to_idle(m: MockV, step_jog: bool)
    requires
        m.connected,
    ensures
        write_step(m, seq![24u8], step_jog) == Ok::<(MockV, WriteEffect), TransportError>(
            (
                MockV {
                    writes: m.writes.push(seq![24u8]),
                    status: DEFAULT_STATUS@,
                    jog_polls: 0,
                    active: m.active.push(ReadV::Line(RESET_BANNER@)),
                    ..m
                },
                WriteEffect::Done,
            ),
        ),
{
    assert(seq![24u8][0] != seq![63u8][0]);
    assert(seq![24u8][0] != seq![33u8][0]);
}

/// A disconnected mock refuses every write and changes nothing.
pub proof fn lemma_disconnected_refuses_writes(m: MockV, data: Seq<u8>, step_jog: bool)
    requires
        !m.connected,
    ensures
        write_step(m, data, step_jog) == Err::<(MockV, WriteEffect), TransportError>(
            TransportError::NotConnected,
        ),
{
}

} // verus!
