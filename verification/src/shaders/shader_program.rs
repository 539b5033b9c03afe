use vstd::prelude::*;

use super::{linking_error, log_error, ShaderError, ShaderErrorView};
use vstd::utf8::{decode_utf8, valid_utf8};

verus! {

/// The next GL call that building a shader program needs, or its outcome.
///
/// Each variant but the last two asks the caller to make one GL call and to
/// report it back as a [`LinkEvent`]. `Linked` hands the program over;
/// `Failed` asks the caller to delete the program and report the error.
#[derive(Debug, PartialEq, Eq)]
pub enum LinkStep {
    /// `glCreateProgram()`, answered by [`LinkEvent::ProgramCreated`].
    CreateProgram,
    /// `glAttachShader(program, shader)`, answered by [`LinkEvent::ShaderAttached`].
    AttachShader { program: u32, shader: u32 },
    /// `glLinkProgram(program)`, answered by [`LinkEvent::ProgramLinked`].
    LinkProgram { program: u32 },
    /// `glGetProgramiv(program, GL_LINK_STATUS)`, answered by [`LinkEvent::LinkStatus`].
    QueryLinkStatus { program: u32 },
    /// `glGetProgramiv(program, GL_INFO_LOG_LENGTH)`, answered by [`LinkEvent::InfoLogLength`].
    QueryInfoLogLength { program: u32 },
    /// `glGetProgramInfoLog(program, capacity, ..)` into a buffer of `capacity`
    /// bytes, answered by [`LinkEvent::InfoLog`].
    ReadInfoLog { program: u32, capacity: i32 },
    /// The program linked: it is the result.
    Linked { program: u32 },
    /// The program did not link: delete it; `error` is the result.
    Failed { program: u32, error: ShaderError },
}

/// The mathematical value of a [`LinkStep`].
pub enum LinkStepView {
    CreateProgram,
    AttachShader { program: u32, shader: u32 },
    LinkProgram { program: u32 },
    QueryLinkStatus { program: u32 },
    QueryInfoLogLength { program: u32 },
    ReadInfoLog { program: u32, capacity: i32 },
    Linked { program: u32 },
    Failed { program: u32, error: ShaderErrorView },
}

impl View for LinkStep {
    type V = LinkStepView;

    open spec fn view(&self) -> LinkStepView {
        match self {
            LinkStep::CreateProgram => LinkStepView::CreateProgram,
            LinkStep::AttachShader { program, shader } => LinkStepView::AttachShader {
                program: *program,
                shader: *shader,
            },
            LinkStep::LinkProgram { program } => LinkStepView::LinkProgram { program: *program },
            LinkStep::QueryLinkStatus { program } => LinkStepView::QueryLinkStatus {
                program: *program,
            },
            LinkStep::QueryInfoLogLength { program } => LinkStepView::QueryInfoLogLength {
                program: *program,
            },
            LinkStep::ReadInfoLog { program, capacity } => LinkStepView::ReadInfoLog {
                program: *program,
                capacity: *capacity,
            },
            LinkStep::Linked { program } => LinkStepView::Linked { program: *program },
            LinkStep::Failed { program, error } => LinkStepView::Failed {
                program: *program,
                error: error@,
            },
        }
    }
}

/// What a GL call asked for by a [`LinkStep`] gave back.
#[derive(Debug, PartialEq, Eq)]
pub enum LinkEvent {
    /// The name that `glCreateProgram` returned.
    ProgramCreated(u32),
    ShaderAttached,
    ProgramLinked,
    /// The value of `GL_LINK_STATUS`.
    LinkStatus(i32),
    /// The value of `GL_INFO_LOG_LENGTH`.
    InfoLogLength(i32),
    /// The buffer handed to `glGetProgramInfoLog` and the length it reported
    /// as written.
    InfoLog { bytes: Vec<u8>, written: i32 },
}

/// The mathematical value of a [`LinkEvent`].
pub enum LinkEventView {
    ProgramCreated(u32),
    ShaderAttached,
    ProgramLinked,
    LinkStatus(i32),
    InfoLogLength(i32),
    InfoLog { bytes: Seq<u8>, written: i32 },
}

impl View for LinkEvent {
    type V = LinkEventView;

    open spec fn view(&self) -> LinkEventView {
        match self {
            LinkEvent::ProgramCreated(p) => LinkEventView::ProgramCreated(*p),
            LinkEvent::ShaderAttached => LinkEventView::ShaderAttached,
            LinkEvent::ProgramLinked => LinkEventView::ProgramLinked,
            LinkEvent::LinkStatus(s) => LinkEventView::LinkStatus(*s),
            LinkEvent::InfoLogLength(n) => LinkEventView::InfoLogLength(*n),
            LinkEvent::InfoLog { bytes, written } => LinkEventView::InfoLog {
                bytes: bytes@,
                written: *written,
            },
        }
    }
}

/// Which answer a [`ProgramLinker`] waits for.
#[derive(Debug, Clone, Copy, PartialEq, Eq)]
pub enum LinkPhase {
    AwaitProgram,
    AwaitAttach { program: u32, index: usize },
    AwaitLink { program: u32 },
    AwaitStatus { program: u32 },
    AwaitLogLength { program: u32 },
    AwaitLog { program: u32, capacity: i32 },
    Finished,
}

/// Whether `event` answers the call that `phase` waits for, with a value the
/// build can go on with: a log length is not negative, and the written length
/// of a log lies within its buffer.
pub open spec fn event_accepted(phase: LinkPhase, event: LinkEventView) -> bool {
    match (phase, event) {
        (LinkPhase::AwaitProgram, LinkEventView::ProgramCreated(_)) => true,
        (LinkPhase::AwaitAttach { .. }, LinkEventView::ShaderAttached) => true,
        (LinkPhase::AwaitLink { .. }, LinkEventView::ProgramLinked) => true,
        (LinkPhase::AwaitStatus { .. }, LinkEventView::LinkStatus(_)) => true,
        (LinkPhase::AwaitLogLength { .. }, LinkEventView::InfoLogLength(n)) => n >= 0,
        (LinkPhase::AwaitLog { .. }, LinkEventView::InfoLog { bytes, written }) => 0 <= written
            <= bytes.len(),
        _ => false,
    }
}

/// Attach the shader at `index`, or link once every shader is attached.
pub open spec fn link_transition_from(program: u32, index: int, shaders: Seq<u32>) -> (
    LinkPhase,
    LinkStepView,
) {
    if index < shaders.len() {
        (
            LinkPhase::AwaitAttach { program, index: index as usize },
            LinkStepView::AttachShader { program, shader: shaders[index] },
        )
    } else {
        (LinkPhase::AwaitLink { program }, LinkStepView::LinkProgram { program })
    }
}

/// The phase and step that follow an accepted `event` in `phase`, when the
/// program is built from `shaders` (meaningful for accepted events only).
pub open spec fn link_transition(phase: LinkPhase, shaders: Seq<u32>, event: LinkEventView) -> (
    LinkPhase,
    LinkStepView,
) {
    match (phase, event) {
        (LinkPhase::AwaitProgram, LinkEventView::ProgramCreated(program)) => link_transition_from(
            program,
            0,
            shaders,
        ),
        (LinkPhase::AwaitAttach { program, index }, LinkEventView::ShaderAttached) =>
            link_transition_from(program, index + 1, shaders),
        (LinkPhase::AwaitLink { program }, LinkEventView::ProgramLinked) => (
            LinkPhase::AwaitStatus { program },
            LinkStepView::QueryLinkStatus { program },
        ),
        (LinkPhase::AwaitStatus { program }, LinkEventView::LinkStatus(status)) => if status == 1 {
            (LinkPhase::Finished, LinkStepView::Linked { program })
        } else {
            (LinkPhase::AwaitLogLength { program }, LinkStepView::QueryInfoLogLength { program })
        },
        (LinkPhase::AwaitLogLength { program }, LinkEventView::InfoLogLength(n)) => (
            LinkPhase::AwaitLog { program, capacity: n },
            LinkStepView::ReadInfoLog { program, capacity: n },
        ),
        (LinkPhase::AwaitLog { program, .. }, LinkEventView::InfoLog { bytes, written }) => (
            LinkPhase::Finished,
            LinkStepView::Failed { program, error: log_error(bytes.take(written as int)) },
        ),
        _ => (phase, LinkStepView::CreateProgram),
    }
}

/// The phase reached and the steps issued when `events` are fed one by one,
/// starting in `phase`.
pub open spec fn run_link(phase: LinkPhase, shaders: Seq<u32>, events: Seq<LinkEventView>) -> (
    LinkPhase,
    Seq<LinkStepView>,
)
    decreases events.len(),
{
    if events.len() == 0 {
        (phase, seq![])
    } else {
        let (mid, step) = link_transition(phase, shaders, events[0]);
        let (last, steps) = run_link(mid, shaders, events.drop_first());
        (last, seq![step] + steps)
    }
}

/// Whether each of `events`, fed one by one from `phase`, is accepted.
pub open spec fn run_accepted(phase: LinkPhase, shaders: Seq<u32>, events: Seq<LinkEventView>) -> bool
    decreases events.len(),
{
    events.len() == 0 || (event_accepted(phase, events[0]) && run_accepted(
        link_transition(phase, shaders, events[0]).0,
        shaders,
        events.drop_first(),
    ))
}

/// The decisions of building a shader program: which GL call comes next,
/// and what the build returns.
pub struct ProgramLinker {
    shaders: Vec<u32>,
    phase: LinkPhase,
}

impl ProgramLinker {
    #[verifier::type_invariant]
    spec fn phase_in_range(self) -> bool {
        self.phase matches LinkPhase::AwaitAttach { index, .. } ==> index < self.shaders@.len()
    }

    /// The phase the build is in.
    pub closed spec fn phase(&self) -> LinkPhase {
        self.phase
    }

    /// The names of the shaders to attach, in order.
    pub closed spec fn shaders(&self) -> Seq<u32> {
        self.shaders@
    }

    /// Starts a build of a program from the given shaders; the first step
    /// creates the program.
    pub fn new(shaders: Vec<u32>) -> (res: (ProgramLinker, LinkStep))
        ensures
            res.0.phase() == LinkPhase::AwaitProgram,
            res.0.shaders() == shaders@,
            res.1@ == LinkStepView::CreateProgram,
    {
        (ProgramLinker { shaders, phase: LinkPhase::AwaitProgram }, LinkStep::CreateProgram)
    }

    /// Whether `event` is an answer that [`ProgramLinker::step`] takes now.
    pub fn accepts(&self, event: &LinkEvent) -> (ok: bool)
        ensures
            ok == event_accepted(self.phase(), event@),
    {
        match (self.phase, event) {
            (LinkPhase::AwaitProgram, LinkEvent::ProgramCreated(_)) => true,
            (LinkPhase::AwaitAttach { .. }, LinkEvent::ShaderAttached) => true,
            (LinkPhase::AwaitLink { .. }, LinkEvent::ProgramLinked) => true,
            (LinkPhase::AwaitStatus { .. }, LinkEvent::LinkStatus(_)) => true,
            (LinkPhase::AwaitLogLength { .. }, LinkEvent::InfoLogLength(n)) => *n >= 0,
            (LinkPhase::AwaitLog { .. }, LinkEvent::InfoLog { bytes, written }) => 0 <= *written
                && (*written as usize) <= bytes.len(),
            _ => false,
        }
    }

    fn attach_from(&mut self, program: u32, index: usize) -> (step: LinkStep)
        requires
            index <= old(self).shaders@.len(),
        ensures
            final(self).shaders@ == old(self).shaders@,
            (final(self).phase, step@) == link_transition_from(program, index as int, old(self).shaders@),
    {
        if index < self.shaders.len() {
            self.phase = LinkPhase::AwaitAttach { program, index };
            LinkStep::AttachShader { program, shader: self.shaders[index] }
        } else {
            self.phase = LinkPhase::AwaitLink { program };
            LinkStep::LinkProgram { program }
        }
    }

    /// Takes the answer to the last step and gives the next one.
    pub fn step(&mut self, event: LinkEvent) -> (step: LinkStep)
        requires
            event_accepted(old(self).phase(), event@),
        ensures
            final(self).shaders() == old(self).shaders(),
            (final(self).phase(), step@) == link_transition(old(self).phase(), old(self).shaders(), event@),
            event@ matches LinkEventView::InfoLog { bytes, written } ==> {
                let log = bytes.take(written as int);
                &&& valid_utf8(log) ==> (step@ is Failed && step@->error
                    == ShaderErrorView::LinkingError(decode_utf8(log)))
                &&& !valid_utf8(log) ==> (step@ is Failed && step@->error
                    == ShaderErrorView::OtherError)
            },
    {
        proof {
            use_type_invariant(&*self);
        }
        let ghost event_view = event@;
        let count = self.shaders.len();
        match (self.phase, event) {
            (LinkPhase::AwaitProgram, LinkEvent::ProgramCreated(program)) => self.attach_from(program, 0),
            (LinkPhase::AwaitAttach { program, index }, LinkEvent::ShaderAttached) => {
                assert(index < count);
                self.attach_from(program, index + 1)
            },
            (LinkPhase::AwaitLink { program }, LinkEvent::ProgramLinked) => {
                self.phase = LinkPhase::AwaitStatus { program };
                LinkStep::QueryLinkStatus { program }
            },
            (LinkPhase::AwaitStatus { program }, LinkEvent::LinkStatus(status)) => {
                if status == 1 {
                    self.phase = LinkPhase::Finished;
                    LinkStep::Linked { program }
                } else {
                    self.phase = LinkPhase::AwaitLogLength { program };
                    LinkStep::QueryInfoLogLength { program }
                }
            },
            (LinkPhase::AwaitLogLength { program }, LinkEvent::InfoLogLength(n)) => {
                self.phase = LinkPhase::AwaitLog { program, capacity: n };
                LinkStep::ReadInfoLog { program, capacity: n }
            },
            (LinkPhase::AwaitLog { program, .. }, LinkEvent::InfoLog { bytes, written }) => {
                let mut log = bytes;
                log.truncate(written as usize);
                let error = linking_error(log);
                self.phase = LinkPhase::Finished;
                LinkStep::Failed { program, error }
            },
            _ => {
                proof {
                    assert(!event_accepted(self.phase, event_view));
                }
                LinkStep::CreateProgram
            },
        }
    }
}

/// The steps that attach each of `shaders`, in order, to `program`.
pub open spec fn attach_steps(program: u32, shaders: Seq<u32>) -> Seq<LinkStepView> {
    shaders.map_values(|shader: u32| LinkStepView::AttachShader { program, shader })
}

/// `n` answers that a shader was attached.
pub open spec fn attached_events(n: nat) -> Seq<LinkEventView> {
    Seq::new(n, |i: int| LinkEventView::ShaderAttached)
}

/// Whether `phase` belongs to a build that has created `program` and not yet ended.
pub open spec fn holds_program(phase: LinkPhase, program: u32) -> bool {
    match phase {
        LinkPhase::AwaitAttach { program: p, .. } => p == program,
        LinkPhase::AwaitLink { program: p } => p == program,
        LinkPhase::AwaitStatus { program: p } => p == program,
        LinkPhase::AwaitLogLength { program: p } => p == program,
        LinkPhase::AwaitLog { program: p, .. } => p == program,
        _ => false,
    }
}

/// Whether `step` ends a build of `program`, by handing it over or by releasing it.
pub open spec fn ends_build_of(step: LinkStepView, program: u32) -> bool {
    ||| step == LinkStepView::Linked { program }
    ||| step matches LinkStepView::Failed { program: p, .. } && p == program
}

proof fn lemma_run_append(
    phase: LinkPhase,
    shaders: Seq<u32>,
    first: Seq<LinkEventView>,
    second: Seq<LinkEventView>,
)
    ensures
        run_link(phase, shaders, first + second) == (
            run_link(run_link(phase, shaders, first).0, shaders, second).0,
            run_link(phase, shaders, first).1 + run_link(
                run_link(phase, shaders, first).0,
                shaders,
                second,
            ).1,
        ),
        run_accepted(phase, shaders, first + second) == (run_accepted(phase, shaders, first)
            && run_accepted(run_link(phase, shaders, first).0, shaders, second)),
    decreases first.len(),
{
    if first.len() == 0 {
        assert(first + second =~= second);
        assert(seq![] + run_link(phase, shaders, second).1 =~= run_link(phase, shaders, second).1);
    } else {
        let (mid, step) = link_transition(phase, shaders, first[0]);
        lemma_run_append(mid, shaders, first.drop_first(), second);
        assert((first + second)[0] == first[0]);
        assert((first + second).drop_first() =~= first.drop_first() + second);
        let r1 = run_link(mid, shaders, first.drop_first()).1;
        let r2 = run_link(run_link(mid, shaders, first.drop_first()).0, shaders, second).1;
        assert(seq![step] + (r1 + r2) =~= (seq![step] + r1) + r2);
    }
}

proof fn lemma_run_one(phase: LinkPhase, shaders: Seq<u32>, event: LinkEventView)
    ensures
        run_link(phase, shaders, seq![event]) == (
            link_transition(phase, shaders, event).0,
            seq![link_transition(phase, shaders, event).1],
        ),
        run_accepted(phase, shaders, seq![event]) == event_accepted(phase, event),
{
    let events = seq![event];
    assert(events.drop_first() =~= Seq::<LinkEventView>::empty());
    let mid = link_transition(phase, shaders, event).0;
    assert(run_link(mid, shaders, events.drop_first()) == (mid, Seq::<LinkStepView>::empty()));
    assert(run_accepted(mid, shaders, events.drop_first()));
    assert(seq![link_transition(phase, shaders, event).1] + Seq::<LinkStepView>::empty() =~= seq![
        link_transition(phase, shaders, event).1,
    ]);
}

proof fn lemma_attach_run(program: u32, shaders: Seq<u32>, k: nat)
    requires
        k < shaders.len() <= usize::MAX,
    ensures
        run_accepted(
            LinkPhase::AwaitAttach { program, index: k as usize },
            shaders,
            attached_events((shaders.len() - k) as nat),
        ),
        run_link(
            LinkPhase::AwaitAttach { program, index: k as usize },
            shaders,
            attached_events((shaders.len() - k) as nat),
        ) == (
            LinkPhase::AwaitLink { program },
            attach_steps(program, shaders.subrange(k + 1int, shaders.len() as int)) + seq![
                LinkStepView::LinkProgram { program },
            ],
        ),
    decreases shaders.len() - k,
{
    let n = shaders.len();
    let events = attached_events((n - k) as nat);
    let phase = LinkPhase::AwaitAttach { program, index: k as usize };
    assert(events[0] == LinkEventView::ShaderAttached);
    assert(events.drop_first() =~= attached_events((n - (k + 1)) as nat));
    let (mid, step) = link_transition(phase, shaders, events[0]);
    assert(event_accepted(phase, events[0]));
    if k + 1 < n {
        assert(mid == LinkPhase::AwaitAttach { program, index: (k + 1) as usize });
        assert(step == LinkStepView::AttachShader { program, shader: shaders[k + 1int] });
        lemma_attach_run(program, shaders, k + 1);
        assert(attach_steps(program, shaders.subrange(k + 1int, n as int)) =~= seq![
            LinkStepView::AttachShader { program, shader: shaders[k + 1int] },
        ] + attach_steps(program, shaders.subrange(k + 2int, n as int)));
        let rest = run_link(mid, shaders, events.drop_first()).1;
        assert(seq![step] + rest =~= attach_steps(program, shaders.subrange(k + 1int, n as int))
            + seq![LinkStepView::LinkProgram { program }]);
    } else {
        assert(mid == LinkPhase::AwaitLink { program });
        assert(events.drop_first() =~= Seq::<LinkEventView>::empty());
        assert(run_link(mid, shaders, events.drop_first()) == (mid, Seq::<LinkStepView>::empty()));
        assert(run_accepted(mid, shaders, events.drop_first()));
        assert(attach_steps(program, shaders.subrange(k + 1int, n as int)) =~= Seq::<
            LinkStepView,
        >::empty());
        assert(seq![step] + Seq::<LinkStepView>::empty() =~= Seq::<LinkStepView>::empty() + seq![
            LinkStepView::LinkProgram { program },
        ]);
    }
}

/// From creating `program` to the answer to the link, a build attaches every
/// shader once and in order, then links and asks for the link status.
proof fn lemma_up_to_status(program: u32, shaders: Seq<u32>)
    requires
        shaders.len() <= usize::MAX,
    ensures
        ({
            let events = seq![LinkEventView::ProgramCreated(program)] + attached_events(
                shaders.len(),
            ) + seq![LinkEventView::ProgramLinked];
            &&& run_accepted(LinkPhase::AwaitProgram, shaders, events)
            &&& run_link(LinkPhase::AwaitProgram, shaders, events) == (
                LinkPhase::AwaitStatus { program },
                attach_steps(program, shaders) + seq![
                    LinkStepView::LinkProgram { program },
                    LinkStepView::QueryLinkStatus { program },
                ],
            )
        }),
{
    let n = shaders.len();
    let created = seq![LinkEventView::ProgramCreated(program)];
    let attached = attached_events(n);
    let linked = seq![LinkEventView::ProgramLinked];
    let start = LinkPhase::AwaitProgram;
    lemma_run_one(start, shaders, LinkEventView::ProgramCreated(program));
    lemma_run_append(start, shaders, created, attached);
    lemma_run_append(start, shaders, created + attached, linked);
    let after_create = run_link(start, shaders, created);
    let after_attach = run_link(start, shaders, created + attached);
    assert(after_attach.0 == LinkPhase::AwaitLink { program } && after_attach.1 =~= attach_steps(
        program,
        shaders,
    ) + seq![LinkStepView::LinkProgram { program }] && run_accepted(start, shaders, created + attached))
        by {
        if n == 0 {
            assert(attached =~= Seq::<LinkEventView>::empty());
            assert(run_link(after_create.0, shaders, attached) == (
                after_create.0,
                Seq::<LinkStepView>::empty(),
            ));
            assert(run_accepted(after_create.0, shaders, attached));
            assert(attach_steps(program, shaders) =~= Seq::<LinkStepView>::empty());
        } else {
            lemma_attach_run(program, shaders, 0);
            assert(after_create.0 == LinkPhase::AwaitAttach { program, index: 0 });
            assert(after_create.1 =~= seq![
                LinkStepView::AttachShader { program, shader: shaders[0] },
            ]);
            assert(shaders.subrange(1, n as int) =~= shaders.subrange(0 + 1int, n as int));
            assert(attach_steps(program, shaders) =~= seq![
                LinkStepView::AttachShader { program, shader: shaders[0] },
            ] + attach_steps(program, shaders.subrange(1, n as int)));
        }
    }
    lemma_run_one(after_attach.0, shaders, LinkEventView::ProgramLinked);
}

/// A build whose link status is 1 makes exactly these GL calls: it creates the
/// program, attaches every shader once and in the order given, links, asks for
/// the link status, and then returns the program it created.
pub proof fn law_successful_link(shaders: Seq<u32>, program: u32)
    requires
        shaders.len() <= usize::MAX,
    ensures
        ({
            let events = seq![LinkEventView::ProgramCreated(program)] + attached_events(
                shaders.len(),
            ) + seq![LinkEventView::ProgramLinked, LinkEventView::LinkStatus(1)];
            &&& run_accepted(LinkPhase::AwaitProgram, shaders, events)
            &&& run_link(LinkPhase::AwaitProgram, shaders, events) == (
                LinkPhase::Finished,
                attach_steps(program, shaders) + seq![
                    LinkStepView::LinkProgram { program },
                    LinkStepView::QueryLinkStatus { program },
                    LinkStepView::Linked { program },
                ],
            )
        }),
{
    let prefix = seq![LinkEventView::ProgramCreated(program)] + attached_events(shaders.len())
        + seq![LinkEventView::ProgramLinked];
    let status = seq![LinkEventView::LinkStatus(1)];
    lemma_up_to_status(program, shaders);
    lemma_run_append(LinkPhase::AwaitProgram, shaders, prefix, status);
    lemma_run_one(LinkPhase::AwaitStatus { program }, shaders, LinkEventView::LinkStatus(1));
    assert(prefix + status =~= seq![LinkEventView::ProgramCreated(program)] + attached_events(
        shaders.len(),
    ) + seq![LinkEventView::ProgramLinked, LinkEventView::LinkStatus(1)]);
    assert(attach_steps(program, shaders) + seq![
        LinkStepView::LinkProgram { program },
        LinkStepView::QueryLinkStatus { program },
    ] + seq![LinkStepView::Linked { program }] =~= attach_steps(program, shaders) + seq![
        LinkStepView::LinkProgram { program },
        LinkStepView::QueryLinkStatus { program },
        LinkStepView::Linked { program },
    ]);
}

/// A build whose link status is not 1 makes the same calls up to the status,
/// then asks for the length of the info log, reads the log into a buffer of
/// that length, and deletes the program with the error that the written part
/// of the log gives.
pub proof fn law_failed_link(
    shaders: Seq<u32>,
    program: u32,
    status: i32,
    log_length: i32,
    log: Seq<u8>,
    written: i32,
)
    requires
        shaders.len() <= usize::MAX,
        status != 1,
        log_length >= 0,
        0 <= written <= log.len(),
    ensures
        ({
            let events = seq![LinkEventView::ProgramCreated(program)] + attached_events(
                shaders.len(),
            ) + seq![
                LinkEventView::ProgramLinked,
                LinkEventView::LinkStatus(status),
                LinkEventView::InfoLogLength(log_length),
                LinkEventView::InfoLog { bytes: log, written },
            ];
            &&& run_accepted(LinkPhase::AwaitProgram, shaders, events)
            &&& run_link(LinkPhase::AwaitProgram, shaders, events) == (
                LinkPhase::Finished,
                attach_steps(program, shaders) + seq![
                    LinkStepView::LinkProgram { program },
                    LinkStepView::QueryLinkStatus { program },
                    LinkStepView::QueryInfoLogLength { program },
                    LinkStepView::ReadInfoLog { program, capacity: log_length },
                    LinkStepView::Failed { program, error: log_error(log.take(written as int)) },
                ],
            )
        }),
        ({
            let events = seq![LinkEventView::ProgramCreated(program)] + attached_events(
                shaders.len(),
            ) + seq![
                LinkEventView::ProgramLinked,
                LinkEventView::LinkStatus(status),
                LinkEventView::InfoLogLength(log_length),
                LinkEventView::InfoLog { bytes: log, written },
            ];
            let last = run_link(LinkPhase::AwaitProgram, shaders, events).1.last();
            let written_log = log.take(written as int);
            &&& valid_utf8(written_log) ==> last == LinkStepView::Failed {
                program,
                error: ShaderErrorView::LinkingError(decode_utf8(written_log)),
            }
            &&& !valid_utf8(written_log) ==> last == LinkStepView::Failed {
                program,
                error: ShaderErrorView::OtherError,
            }
        }),
{
    let prefix = seq![LinkEventView::ProgramCreated(program)] + attached_events(shaders.len())
        + seq![LinkEventView::ProgramLinked];
    let e1 = seq![LinkEventView::LinkStatus(status)];
    let e2 = seq![LinkEventView::InfoLogLength(log_length)];
    let e3 = seq![LinkEventView::InfoLog { bytes: log, written }];
    let start = LinkPhase::AwaitProgram;
    lemma_up_to_status(program, shaders);
    lemma_run_append(start, shaders, prefix, e1);
    lemma_run_append(start, shaders, prefix + e1, e2);
    lemma_run_append(start, shaders, prefix + e1 + e2, e3);
    lemma_run_one(LinkPhase::AwaitStatus { program }, shaders, e1[0]);
    lemma_run_one(LinkPhase::AwaitLogLength { program }, shaders, e2[0]);
    lemma_run_one(LinkPhase::AwaitLog { program, capacity: log_length }, shaders, e3[0]);
    assert(prefix + e1 + e2 + e3 =~= seq![LinkEventView::ProgramCreated(program)]
        + attached_events(shaders.len()) + seq![
        LinkEventView::ProgramLinked,
        LinkEventView::LinkStatus(status),
        LinkEventView::InfoLogLength(log_length),
        LinkEventView::InfoLog { bytes: log, written },
    ]);
    assert(attach_steps(program, shaders) + seq![
        LinkStepView::LinkProgram { program },
        LinkStepView::QueryLinkStatus { program },
    ] + seq![LinkStepView::QueryInfoLogLength { program }] + seq![
        LinkStepView::ReadInfoLog { program, capacity: log_length },
    ] + seq![LinkStepView::Failed { program, error: log_error(log.take(written as int)) }]
        =~= attach_steps(program, shaders) + seq![
        LinkStepView::LinkProgram { program },
        LinkStepView::QueryLinkStatus { program },
        LinkStepView::QueryInfoLogLength { program },
        LinkStepView::ReadInfoLog { program, capacity: log_length },
        LinkStepView::Failed { program, error: log_error(log.take(written as int)) },
    ]);
}

proof fn lemma_ends_with_program(
    phase: LinkPhase,
    shaders: Seq<u32>,
    events: Seq<LinkEventView>,
    program: u32,
)
    requires
        holds_program(phase, program),
        run_accepted(phase, shaders, events),
        run_link(phase, shaders, events).0 == LinkPhase::Finished,
    ensures
        run_link(phase, shaders, events).1.len() > 0,
        ends_build_of(run_link(phase, shaders, events).1.last(), program),
    decreases events.len(),
{
    if events.len() == 0 {
        assert(run_link(phase, shaders, events).0 == phase);
    }
    let (mid, step) = link_transition(phase, shaders, events[0]);
    let rest = run_link(mid, shaders, events.drop_first());
    assert(run_accepted(mid, shaders, events.drop_first()));
    if mid == LinkPhase::Finished {
        if events.drop_first().len() > 0 {
            assert(!event_accepted(mid, events.drop_first()[0]));
        }
        assert(events.drop_first() =~= Seq::<LinkEventView>::empty());
        assert(rest.1 =~= Seq::<LinkStepView>::empty());
        assert((seq![step] + rest.1).last() == step);
    } else {
        lemma_ends_with_program(mid, shaders, events.drop_first(), program);
        assert((seq![step] + rest.1).last() == rest.1.last());
    }
}

/// Every build that ends, ends with the program it created: either the
/// program is handed over, or it is released together with the error. No
/// program is left behind.
pub proof fn law_build_ends_with_its_program(shaders: Seq<u32>, events: Seq<LinkEventView>)
    requires
        run_accepted(LinkPhase::AwaitProgram, shaders, events),
        run_link(LinkPhase::AwaitProgram, shaders, events).0 == LinkPhase::Finished,
    ensures
        events.len() > 0,
        events[0] is ProgramCreated,
        run_link(LinkPhase::AwaitProgram, shaders, events).1.len() > 0,
        ends_build_of(run_link(LinkPhase::AwaitProgram, shaders, events).1.last(), events[0]->ProgramCreated_0),
{
    let program = events[0]->ProgramCreated_0;
    let (mid, step) = link_transition(LinkPhase::AwaitProgram, shaders, events[0]);
    assert(holds_program(mid, program));
    lemma_ends_with_program(mid, shaders, events.drop_first(), program);
    let rest = run_link(mid, shaders, events.drop_first());
    assert((seq![step] + rest.1).last() == rest.1.last());
}

} // verus!
