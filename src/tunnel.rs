//! The tunnel interface: the configuration text written for the external
//! WireGuard tool, and the order in which the tool's operations run when the
//! interface is brought up fresh, reused, or brought down.
use vstd::prelude::*;

verus! {

/// `s` with every occurrence of `from`, read left to right without overlap,
/// replaced by `to`.
pub open spec fn replace_all(s: Seq<char>, from: Seq<char>, to: Seq<char>) -> Seq<char>
    decreases s.len(),
{
    if s.len() == 0 {
        Seq::empty()
    } else if 0 < from.len() <= s.len() && s.take(from.len() as int) == from {
        to + replace_all(s.skip(from.len() as int), from, to)
    } else {
        seq![s[0]] + replace_all(s.skip(1), from, to)
    }
}

/// Replaces every occurrence of a non-empty `from` in `s` by `to`.
pub fn replace_text(s: &str, from: &str, to: &str) -> (r: String)
    requires
        from@.len() > 0,
    ensures
        r@ == replace_all(s@, from@, to@),
{
    let n = s.unicode_len();
    let m = from.unicode_len();
    let target = from.to_owned();
    let mut out = String::new();
    let mut i: usize = 0;
    assert(s@.skip(0) =~= s@);
    assert(out@ + replace_all(s@, from@, to@) =~= replace_all(s@, from@, to@));
    while i < n
        invariant
            n == s@.len(),
            m == from@.len(),
            m > 0,
            target@ == from@,
            i <= n,
            out@ + replace_all(s@.skip(i as int), from@, to@) == replace_all(s@, from@, to@),
        decreases n - i,
    {
        let ghost rest = s@.skip(i as int);
        if m <= n - i && s.substring_char(i, i + m).to_owned() == target {
            proof {
                assert(rest.take(m as int) =~= s@.subrange(i as int, i + m));
                assert(rest.skip(m as int) =~= s@.skip(i + m));
            }
            out.append(to);
            i = i + m;
            assert(out@ + replace_all(s@.skip(i as int), from@, to@) =~= replace_all(
                s@,
                from@,
                to@,
            ));
        } else {
            let c = s.substring_char(i, i + 1);
            proof {
                assert(c@ =~= seq![rest[0]]);
                assert(rest.skip(1) =~= s@.skip(i + 1));
                if m <= n - i {
                    assert(rest.take(m as int) =~= s@.subrange(i as int, i + m));
                }
            }
            out.append(c);
            i = i + 1;
            assert(out@ + replace_all(s@.skip(i as int), from@, to@) =~= replace_all(
                s@,
                from@,
                to@,
            ));
        }
    }
    assert(s@.skip(n as int) =~= Seq::<char>::empty());
    assert(out@ + Seq::<char>::empty() =~= out@);
    out
}

/// The configuration text for a relay: the template with `SERVER_IP` replaced
/// by the relay's address, then `SERVER_PUBKEY` by its public key.
pub fn render_config(template: &str, ip: &str, public_key: &str) -> (r: String)
    ensures
        r@ == replace_all(
            replace_all(template@, "SERVER_IP"@, ip@),
            "SERVER_PUBKEY"@,
            public_key@,
        ),
{
    proof {
        reveal_strlit("SERVER_IP");
        reveal_strlit("SERVER_PUBKEY");
    }
    let with_ip = replace_text(template, "SERVER_IP", ip);
    replace_text(with_ip.as_str(), "SERVER_PUBKEY", public_key)
}

/// Arguments of the disconnect command: it takes none.
#[derive(Clone, Copy, Debug, PartialEq, Eq, Default)]
pub struct DisconnectArgs {}

/// One operation of the external tool on the tunnel interface.
#[derive(Clone, Copy, Debug, PartialEq, Eq, Structural)]
pub enum ToolStep {
    /// Bring the interface up from the configuration file.
    Up,
    /// Print the configuration file stripped of what only the up operation reads.
    Strip,
    /// Apply the stripped configuration to the existing interface.
    Apply,
    /// Set the routing mark on the interface again.
    SetMark,
    /// Bring the interface down.
    Down,
}

/// Where a run of tool operations stands.
#[derive(Clone, Copy, Debug, PartialEq, Eq, Structural)]
pub enum Phase {
    /// This operation is to run next.
    Run(ToolStep),
    /// Every operation succeeded.
    Done,
    /// This operation failed; nothing after it runs.
    Failed(ToolStep),
}

/// Why a tunnel operation failed.
#[derive(Clone, Copy, Debug, PartialEq, Eq, Structural)]
pub enum TunnelError {
    /// The external tool exited with failure during this operation.
    ExternalTool(ToolStep),
}

/// The operation that follows a successful one, if any.
pub open spec fn step_after(s: ToolStep) -> Option<ToolStep> {
    match s {
        ToolStep::Strip => Some(ToolStep::Apply),
        ToolStep::Apply => Some(ToolStep::SetMark),
        _ => None,
    }
}

/// The first phase of a connect.
pub open spec fn connect_phase(interface_present: bool) -> Phase {
    if interface_present {
        Phase::Run(ToolStep::Strip)
    } else {
        Phase::Run(ToolStep::Up)
    }
}

/// The phase after the running operation exited.
pub open spec fn advance_phase(p: Phase, succeeded: bool) -> Phase {
    match p {
        Phase::Run(s) => if !succeeded {
            Phase::Failed(s)
        } else {
            match step_after(s) {
                Some(n) => Phase::Run(n),
                None => Phase::Done,
            }
        },
        _ => p,
    }
}

/// The first operation of a connect: an absent interface is brought up; a
/// present one is reused by strip, apply and set-mark.
pub fn connect_start(interface_present: bool) -> (r: Phase)
    ensures
        r == connect_phase(interface_present),
{
    if interface_present {
        Phase::Run(ToolStep::Strip)
    } else {
        Phase::Run(ToolStep::Up)
    }
}

/// The first operation of a disconnect.
pub fn disconnect_start() -> (r: Phase)
    ensures
        r == Phase::Run(ToolStep::Down),
{
    Phase::Run(ToolStep::Down)
}

/// The phase after the running operation exited: a failure ends the run at
/// that operation, a success moves on to the next one or finishes.
pub fn advance(phase: Phase, succeeded: bool) -> (r: Phase)
    requires
        phase is Run,
    ensures
        r == advance_phase(phase, succeeded),
{
    match phase {
        Phase::Run(s) => {
            if !succeeded {
                Phase::Failed(s)
            } else {
                match s {
                    ToolStep::Strip => Phase::Run(ToolStep::Apply),
                    ToolStep::Apply => Phase::Run(ToolStep::SetMark),
                    _ => Phase::Done,
                }
            }
        },
        _ => phase,
    }
}

/// The result that a finished phase stands for.
pub open spec fn phase_outcome(p: Phase) -> Result<(), TunnelError> {
    match p {
        Phase::Failed(s) => Err(TunnelError::ExternalTool(s)),
        _ => Ok(()),
    }
}

/// The result of a finished run: the failed operation, if any, is named.
pub fn outcome(phase: Phase) -> (r: Result<(), TunnelError>)
    requires
        !(phase is Run),
    ensures
        r == phase_outcome(phase),
{
    match phase {
        Phase::Failed(s) => Err(TunnelError::ExternalTool(s)),
        _ => Ok(()),
    }
}

/// Runs the machine from `p` against the tool's exit results in order: the
/// operations invoked and the phase reached.
pub open spec fn run_steps(p: Phase, exits: Seq<bool>) -> (Seq<ToolStep>, Phase)
    decreases exits.len(),
{
    match p {
        Phase::Run(s) => if exits.len() == 0 {
            (Seq::empty(), p)
        } else {
            let next = run_steps(advance_phase(p, exits[0]), exits.drop_first());
            (seq![s] + next.0, next.1)
        },
        _ => (Seq::empty(), p),
    }
}

/// On a present interface, a failing strip is the only operation invoked:
/// apply and set-mark never run, and the error names the strip.
pub proof fn lemma_strip_failure_stops(exits: Seq<bool>)
    requires
        exits.len() > 0,
        !exits[0],
    ensures
        run_steps(connect_phase(true), exits) == (seq![ToolStep::Strip], Phase::Failed(
            ToolStep::Strip,
        )),
        phase_outcome(run_steps(connect_phase(true), exits).1) == Err::<(), TunnelError>(
            TunnelError::ExternalTool(ToolStep::Strip),
        ),
{
    let next = run_steps(advance_phase(connect_phase(true), exits[0]), exits.drop_first());
    assert(next == (Seq::<ToolStep>::empty(), Phase::Failed(ToolStep::Strip)));
    assert(seq![ToolStep::Strip] + Seq::<ToolStep>::empty() =~= seq![ToolStep::Strip]);
}

/// On a present interface, three successes run strip, apply and set-mark in
/// that order and finish; on an absent one a single success of up finishes.
pub proof fn lemma_connect_sequences(more: Seq<bool>)
    ensures
        run_steps(connect_phase(true), seq![true, true, true] + more) == (seq![
            ToolStep::Strip,
            ToolStep::Apply,
            ToolStep::SetMark,
        ], Phase::Done),
        run_steps(connect_phase(false), seq![true] + more) == (seq![ToolStep::Up], Phase::Done),
{
    let e3 = seq![true, true, true] + more;
    let e2 = seq![true, true] + more;
    let e1 = seq![true] + more;
    assert(e3[0] && e2[0] && e1[0]);
    assert(e3.drop_first() =~= e2);
    assert(e2.drop_first() =~= e1);
    assert(e1.drop_first() =~= more);
    assert(run_steps(Phase::Done, more) == (Seq::<ToolStep>::empty(), Phase::Done));
    let a = run_steps(Phase::Run(ToolStep::SetMark), e1);
    assert(a == (seq![ToolStep::SetMark] + Seq::<ToolStep>::empty(), Phase::Done));
    assert(a.0 =~= seq![ToolStep::SetMark]);
    let b = run_steps(Phase::Run(ToolStep::Apply), e2);
    assert(b == (seq![ToolStep::Apply] + a.0, Phase::Done));
    assert(b.0 =~= seq![ToolStep::Apply, ToolStep::SetMark]);
    let c = run_steps(Phase::Run(ToolStep::Strip), e3);
    assert(c == (seq![ToolStep::Strip] + b.0, Phase::Done));
    assert(c.0 =~= seq![ToolStep::Strip, ToolStep::Apply, ToolStep::SetMark]);
    let d = run_steps(Phase::Run(ToolStep::Up), e1);
    assert(d == (seq![ToolStep::Up] + Seq::<ToolStep>::empty(), Phase::Done));
    assert(d.0 =~= seq![ToolStep::Up]);
}

} // verus!
