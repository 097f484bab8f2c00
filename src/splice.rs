use vstd::prelude::*;

verus! {

/// One end of a tunnel.
#[derive(Clone, Copy, Debug, PartialEq, Eq, Structural)]
pub enum Side {
    /// The upgraded client connection.
    Client,
    /// The upstream TCP connection.
    Server,
}

pub open spec fn other(side: Side) -> Side {
    match side {
        Side::Client => Side::Server,
        Side::Server => Side::Client,
    }
}

/// What a tunnel session has done so far.
pub ghost struct SpliceModel {
    /// Bytes read from the client and relayed to the server.
    pub from_client: nat,
    /// Bytes read from the server and relayed to the client.
    pub from_server: nat,
    /// False once either side has ended the session.
    pub open: bool,
}

/// What the streams of a tunnel report.
pub ghost enum SpliceEvent {
    /// A read on one side returned these bytes; no bytes means end of stream.
    Read(Side, Seq<u8>),
    /// A read or a write on one side failed.
    Failed(Side),
}

/// What a tunnel session asks to be done next.
pub ghost enum SpliceOutput {
    /// Write these bytes to that side.
    Write(Side, Seq<u8>),
    /// Shut both streams down; the counts are the bytes relayed each way.
    TearDown(nat, nat),
    /// Nothing: the session is already over.
    Idle,
}

pub open spec fn fresh_session() -> SpliceModel {
    SpliceModel { from_client: 0, from_server: 0, open: true }
}

/// An event that ends the session: end of stream or a failure, on either side.
pub open spec fn ends(e: SpliceEvent) -> bool {
    match e {
        SpliceEvent::Read(_, data) => data.len() == 0,
        SpliceEvent::Failed(_) => true,
    }
}

pub open spec fn count(m: SpliceModel, side: Side, n: nat) -> SpliceModel {
    match side {
        Side::Client => SpliceModel { from_client: m.from_client + n, ..m },
        Side::Server => SpliceModel { from_server: m.from_server + n, ..m },
    }
}

/// One transition of a tunnel session.
pub open spec fn step(m: SpliceModel, e: SpliceEvent) -> (SpliceModel, SpliceOutput) {
    if !m.open {
        (m, SpliceOutput::Idle)
    } else if ends(e) {
        (SpliceModel { open: false, ..m }, SpliceOutput::TearDown(m.from_client, m.from_server))
    } else {
        match e {
            SpliceEvent::Read(side, data) => (
                count(m, side, data.len()),
                SpliceOutput::Write(other(side), data),
            ),
            SpliceEvent::Failed(_) => (m, SpliceOutput::Idle),
        }
    }
}

/// A session fed a sequence of events: the last state and every output in order.
pub open spec fn run(m: SpliceModel, es: Seq<SpliceEvent>) -> (SpliceModel, Seq<SpliceOutput>)
    decreases es.len(),
{
    if es.len() == 0 {
        (m, seq![])
    } else {
        let (m1, o) = step(m, es[0]);
        let (m2, os) = run(m1, es.drop_first());
        (m2, seq![o] + os)
    }
}

/// The bytes that `side` sent, in order, before the first event that ends the session.
pub open spec fn sent_before_end(es: Seq<SpliceEvent>, side: Side) -> Seq<u8>
    decreases es.len(),
{
    if es.len() == 0 || ends(es[0]) {
        seq![]
    } else {
        let rest = sent_before_end(es.drop_first(), side);
        match es[0] {
            SpliceEvent::Read(s, data) => if s == side {
                data + rest
            } else {
                rest
            },
            SpliceEvent::Failed(_) => rest,
        }
    }
}

/// The bytes written to `side`, in order.
pub open spec fn written_to(os: Seq<SpliceOutput>, side: Side) -> Seq<u8>
    decreases os.len(),
{
    if os.len() == 0 {
        seq![]
    } else {
        let rest = written_to(os.drop_first(), side);
        match os[0] {
            SpliceOutput::Write(s, data) => if s == side {
                data + rest
            } else {
                rest
            },
            _ => rest,
        }
    }
}

pub open spec fn has_end(es: Seq<SpliceEvent>) -> bool {
    exists|i: int| 0 <= i < es.len() && ends(#[trigger] es[i])
}

/// Number of outputs that tear the session down.
pub open spec fn teardowns(os: Seq<SpliceOutput>) -> nat
    decreases os.len(),
{
    if os.len() == 0 {
        0
    } else {
        (if os[0] is TearDown {
            1nat
        } else {
            0nat
        }) + teardowns(os.drop_first())
    }
}

proof fn lemma_closed_is_silent(m: SpliceModel, es: Seq<SpliceEvent>)
    requires
        !m.open,
    ensures
        run(m, es).0 == m,
        forall|side: Side| written_to(#[trigger] run(m, es).1, side) == Seq::<u8>::empty(),
        teardowns(run(m, es).1) == 0,
    decreases es.len(),
{
    if es.len() > 0 {
        lemma_closed_is_silent(m, es.drop_first());
        let os = run(m, es).1;
        assert(os.drop_first() =~= run(m, es.drop_first()).1);
        assert forall|side: Side| written_to(#[trigger] run(m, es).1, side) == Seq::<
            u8,
        >::empty() by {
            assert(written_to(run(m, es.drop_first()).1, side) == Seq::<u8>::empty());
            assert(written_to(os, side) =~= written_to(os.drop_first(), side));
        }
    }
}

/// Relay identity: while a session is open, each side receives exactly the bytes
/// that the other side sent, in the order sent, and the counts are their lengths.
pub proof fn lemma_relay_identity(m: SpliceModel, es: Seq<SpliceEvent>, side: Side)
    requires
        m.open,
    ensures
        written_to(run(m, es).1, other(side)) == sent_before_end(es, side),
        run(m, es).0.from_client == m.from_client + sent_before_end(es, Side::Client).len(),
        run(m, es).0.from_server == m.from_server + sent_before_end(es, Side::Server).len(),
    decreases es.len(),
{
    if es.len() > 0 {
        let (m1, o) = step(m, es[0]);
        let os = run(m, es).1;
        assert(os.drop_first() =~= run(m1, es.drop_first()).1);
        assert(os[0] == o);
        if ends(es[0]) {
            lemma_closed_is_silent(m1, es.drop_first());
            assert(written_to(os, other(side)) =~= written_to(os.drop_first(), other(side)));
        } else {
            lemma_relay_identity(m1, es.drop_first(), side);
            lemma_relay_identity(m1, es.drop_first(), other(side));
            match es[0] {
                SpliceEvent::Read(s, data) => {
                    assert(s == side <==> other(s) == other(side));
                    if s == side {
                        assert(written_to(os, other(side)) =~= data + written_to(
                            os.drop_first(),
                            other(side),
                        ));
                    } else {
                        assert(written_to(os, other(side)) =~= written_to(
                            os.drop_first(),
                            other(side),
                        ));
                    }
                },
                SpliceEvent::Failed(_) => {},
            }
        }
    }
}

proof fn lemma_sent_stops_at_end(es: Seq<SpliceEvent>, more: Seq<SpliceEvent>, side: Side)
    requires
        has_end(es),
    ensures
        sent_before_end(es + more, side) == sent_before_end(es, side),
    decreases es.len(),
{
    let i = choose|i: int| 0 <= i < es.len() && ends(#[trigger] es[i]);
    assert((es + more)[0] == es[0]);
    if !ends(es[0]) {
        assert(ends(es.drop_first()[i - 1]));
        assert((es + more).drop_first() =~= es.drop_first() + more);
        lemma_sent_stops_at_end(es.drop_first(), more, side);
    }
}

proof fn lemma_end_closes(m: SpliceModel, es: Seq<SpliceEvent>)
    requires
        m.open,
    ensures
        !run(m, es).0.open <==> has_end(es),
        teardowns(run(m, es).1) == (if has_end(es) {
            1nat
        } else {
            0nat
        }),
    decreases es.len(),
{
    if es.len() > 0 {
        let (m1, o) = step(m, es[0]);
        let os = run(m, es).1;
        assert(os.drop_first() =~= run(m1, es.drop_first()).1);
        assert(os[0] == o);
        if ends(es[0]) {
            lemma_closed_is_silent(m1, es.drop_first());
        } else {
            lemma_end_closes(m1, es.drop_first());
            if has_end(es) {
                let i = choose|i: int| 0 <= i < es.len() && ends(#[trigger] es[i]);
                assert(ends(es.drop_first()[i - 1]));
            }
            if has_end(es.drop_first()) {
                let i = choose|i: int|
                    0 <= i < es.drop_first().len() && ends(#[trigger] es.drop_first()[i]);
                assert(ends(es[i + 1]));
            }
        }
    }
}

/// Teardown: once either side ends or fails, the whole session is over. It is torn
/// down exactly once, and whatever comes after writes no byte to either side.
pub proof fn lemma_teardown(m: SpliceModel, es: Seq<SpliceEvent>, more: Seq<SpliceEvent>)
    requires
        m.open,
        has_end(es),
    ensures
        !run(m, es).0.open,
        teardowns(run(m, es).1) == 1,
        teardowns(run(m, es + more).1) == 1,
        forall|side: Side|
            written_to(#[trigger] run(m, es + more).1, side) == written_to(run(m, es).1, side),
{
    lemma_end_closes(m, es);
    assert(has_end(es + more)) by {
        let i = choose|i: int| 0 <= i < es.len() && ends(#[trigger] es[i]);
        assert((es + more)[i] == es[i]);
    }
    lemma_end_closes(m, es + more);
    assert forall|side: Side|
        written_to(#[trigger] run(m, es + more).1, side) == written_to(run(m, es).1, side) by {
        lemma_relay_identity(m, es + more, other(side));
        lemma_relay_identity(m, es, other(side));
        lemma_sent_stops_at_end(es, more, other(side));
        assert(other(other(side)) == side);
    }
}

proof fn lemma_run_push(m: SpliceModel, es: Seq<SpliceEvent>, e: SpliceEvent)
    ensures
        run(m, es.push(e)) == (step(run(m, es).0, e).0, run(m, es).1.push(
            step(run(m, es).0, e).1,
        )),
    decreases es.len(),
{
    if es.len() == 0 {
        let es1 = es.push(e);
        let (m1, o) = step(m, e);
        assert(es1[0] == e);
        assert(es1.drop_first() =~= Seq::<SpliceEvent>::empty());
        assert(run(m1, es1.drop_first()) == (m1, Seq::<SpliceOutput>::empty()));
        assert(seq![o] + Seq::<SpliceOutput>::empty() =~= Seq::<SpliceOutput>::empty().push(o));
        assert(run(m, es) == (m, Seq::<SpliceOutput>::empty()));
    } else {
        let (m1, o) = step(m, es[0]);
        assert(es.push(e)[0] == es[0]);
        assert(es.push(e).drop_first() =~= es.drop_first().push(e));
        lemma_run_push(m1, es.drop_first(), e);
        let os = run(m1, es.drop_first()).1;
        let last = step(run(m1, es.drop_first()).0, e).1;
        assert(seq![o] + os.push(last) =~= (seq![o] + os).push(last));
    }
}

/// A live tunnel session: the bytes relayed each way, whether it is still open, and
/// every event fed to it with every output it gave, in order.
pub struct Splice {
    pub from_client: u64,
    pub from_server: u64,
    pub open: bool,
    pub events: Ghost<Seq<SpliceEvent>>,
    pub outputs: Ghost<Seq<SpliceOutput>>,
}

impl View for Splice {
    type V = SpliceModel;

    open spec fn view(&self) -> SpliceModel {
        SpliceModel {
            from_client: self.from_client as nat,
            from_server: self.from_server as nat,
            open: self.open,
        }
    }
}

/// What the streams of a tunnel are to do next.
pub enum SpliceAction {
    /// Write these bytes to that side.
    Write { to: Side, data: Vec<u8> },
    /// Shut both streams down and report the bytes relayed each way.
    TearDown { from_client: u64, from_server: u64 },
    /// Nothing: the session is already over.
    Idle,
}

impl View for SpliceAction {
    type V = SpliceOutput;

    open spec fn view(&self) -> SpliceOutput {
        match self {
            SpliceAction::Write { to, data } => SpliceOutput::Write(*to, data@),
            SpliceAction::TearDown { from_client, from_server } => SpliceOutput::TearDown(
                *from_client as nat,
                *from_server as nat,
            ),
            SpliceAction::Idle => SpliceOutput::Idle,
        }
    }
}

/// The side that bytes read from `side` are written to.
pub fn opposite(side: Side) -> (r: Side)
    ensures
        r == other(side),
{
    match side {
        Side::Client => Side::Server,
        Side::Server => Side::Client,
    }
}

/// Whether `n` more bytes read from `side` can still be counted.
pub open spec fn can_count(m: SpliceModel, side: Side, n: nat) -> bool {
    match side {
        Side::Client => m.from_client + n <= u64::MAX,
        Side::Server => m.from_server + n <= u64::MAX,
    }
}

impl Splice {
    /// The session is what its events made of a fresh one.
    pub open spec fn wf(&self) -> bool {
        run(fresh_session(), self.events@) == (self@, self.outputs@)
    }

    /// A session whose tunnel has just been established.
    pub fn new() -> (r: Splice)
        ensures
            r@ == fresh_session(),
            r.events@ == Seq::<SpliceEvent>::empty(),
            r.wf(),
    {
        Splice {
            from_client: 0,
            from_server: 0,
            open: true,
            events: Ghost(Seq::empty()),
            outputs: Ghost(Seq::empty()),
        }
    }

    fn tear_down(&mut self) -> (r: SpliceAction)
        requires
            old(self).open,
        ensures
            final(self)@ == (SpliceModel { open: false, ..old(self)@ }),
            r@ == SpliceOutput::TearDown(old(self)@.from_client, old(self)@.from_server),
            final(self).events == old(self).events,
            final(self).outputs == old(self).outputs,
    {
        self.open = false;
        SpliceAction::TearDown { from_client: self.from_client, from_server: self.from_server }
    }

    fn relay(&mut self, from: Side, data: Vec<u8>) -> (r: SpliceAction)
        requires
            can_count(old(self)@, from, data@.len()),
        ensures
            (final(self)@, r@) == step(old(self)@, SpliceEvent::Read(from, data@)),
            final(self).events == old(self).events,
            final(self).outputs == old(self).outputs,
    {
        if !self.open {
            return SpliceAction::Idle;
        }
        if data.len() == 0 {
            return self.tear_down();
        }
        match from {
            Side::Client => {
                self.from_client = self.from_client + data.len() as u64;
            },
            Side::Server => {
                self.from_server = self.from_server + data.len() as u64;
            },
        }
        SpliceAction::Write { to: opposite(from), data }
    }

    /// A read on `from` returned `data`; an empty `data` is end of stream, which
    /// ends the whole session. Otherwise the bytes go to the other side unchanged.
    pub fn on_read(&mut self, from: Side, data: Vec<u8>) -> (r: SpliceAction)
        requires
            old(self).wf(),
            can_count(old(self)@, from, data@.len()),
        ensures
            (final(self)@, r@) == step(old(self)@, SpliceEvent::Read(from, data@)),
            final(self).events@ == old(self).events@.push(SpliceEvent::Read(from, data@)),
            final(self).wf(),
    {
        let ghost e = SpliceEvent::Read(from, data@);
        let r = self.relay(from, data);
        proof {
            lemma_run_push(fresh_session(), self.events@, e);
        }
        self.events = Ghost(self.events@.push(e));
        self.outputs = Ghost(self.outputs@.push(r@));
        r
    }

    /// A read or a write on `from` failed: the whole session ends.
    pub fn on_failure(&mut self, from: Side) -> (r: SpliceAction)
        requires
            old(self).wf(),
        ensures
            (final(self)@, r@) == step(old(self)@, SpliceEvent::Failed(from)),
            final(self).events@ == old(self).events@.push(SpliceEvent::Failed(from)),
            final(self).wf(),
    {
        let ghost e = SpliceEvent::Failed(from);
        let r = if !self.open {
            SpliceAction::Idle
        } else {
            self.tear_down()
        };
        proof {
            lemma_run_push(fresh_session(), self.events@, e);
        }
        self.events = Ghost(self.events@.push(e));
        self.outputs = Ghost(self.outputs@.push(r@));
        r
    }
}

/// Relay identity over a session's calls: each side has been written exactly the
/// bytes that the other side sent before the session ended, in the order sent, and
/// the counts are their lengths.
pub proof fn lemma_session_relays_exactly(s: &Splice, side: Side)
    requires
        s.wf(),
    ensures
        written_to(s.outputs@, other(side)) == sent_before_end(s.events@, side),
        s.from_client == sent_before_end(s.events@, Side::Client).len(),
        s.from_server == sent_before_end(s.events@, Side::Server).len(),
{
    lemma_relay_identity(fresh_session(), s.events@, side);
}

/// Sessions are isolated: what each of two sessions has written to either of its
/// sides is made of its own peer's bytes alone, whatever the other session was fed.
pub proof fn lemma_sessions_isolated(a: &Splice, b: &Splice, side: Side)
    requires
        a.wf(),
        b.wf(),
    ensures
        written_to(a.outputs@, other(side)) == sent_before_end(a.events@, side),
        written_to(b.outputs@, other(side)) == sent_before_end(b.events@, side),
{
    lemma_session_relays_exactly(a, side);
    lemma_session_relays_exactly(b, side);
}

/// Teardown over a session's calls: the session is closed exactly when an end or
/// a failure has been seen on either side, and then it has been torn down once.
pub proof fn lemma_session_teardown(s: &Splice)
    requires
        s.wf(),
    ensures
        !s.open <==> has_end(s.events@),
        teardowns(s.outputs@) == (if has_end(s.events@) {
            1nat
        } else {
            0nat
        }),
{
    lemma_end_closes(fresh_session(), s.events@);
}

} // verus!
