//! The local network device: bringing it up, and converging its addresses.
//!
//! The engine does not run commands itself. It says which `ip` command comes
//! next and what to make of its exit status; the caller runs it.
use vstd::prelude::*;

use crate::addr::IpAddress;
use crate::error::MeshError;
use crate::text::{dec_text, push_char, push_dec, views};

verus! {

/// A command of the `ip` tool on the network device.
#[derive(Clone, Copy, Debug, PartialEq, Eq)]
pub enum IpCommand {
    /// Inspects the device: exits 0 where it exists.
    LinkShow,
    /// Creates the device, of WireGuard type.
    LinkAdd,
    /// Brings the device up.
    LinkUp,
    /// Deletes the device.
    LinkDelete,
    /// Lists the addresses of the device.
    AddrShow,
    /// Removes an address with its prefix length.
    AddrDelete(IpAddress, u8),
    /// Assigns an address with its prefix length.
    AddrAdd(IpAddress, u8),
}

/// `addr/len`.
pub open spec fn prefix_text(addr: IpAddress, len: u8) -> Seq<char> {
    addr.text() + seq!['/'] + dec_text(len as nat)
}

/// The arguments of `ip` for a command on device `dev`.
pub open spec fn ip_args(cmd: IpCommand, dev: Seq<char>) -> Seq<Seq<char>> {
    match cmd {
        IpCommand::LinkShow => seq!["link"@, "show"@, dev],
        IpCommand::LinkAdd => seq!["link"@, "add"@, "dev"@, dev, "type"@, "wireguard"@],
        IpCommand::LinkUp => seq!["link"@, "set"@, "up"@, "dev"@, dev],
        IpCommand::LinkDelete => seq!["link"@, "delete"@, dev],
        IpCommand::AddrShow => seq!["addr"@, "show"@, dev],
        IpCommand::AddrDelete(a, l) => seq!["addr"@, "delete"@, "dev"@, dev, prefix_text(a, l)],
        IpCommand::AddrAdd(a, l) => seq!["addr"@, "add"@, "dev"@, dev, prefix_text(a, l)],
    }
}

fn owned(s: &str) -> (r: String)
    ensures
        r@ == s@,
{
    s.to_owned()
}

fn prefix_string(addr: &IpAddress, len: u8) -> (r: String)
    ensures
        r@ == prefix_text(*addr, len),
{
    let mut s = addr.to_text();
    push_char(&mut s, '/');
    push_dec(&mut s, len as u64);
    assert(s@ =~= prefix_text(*addr, len));
    s
}

/// The arguments to hand the `ip` tool for `cmd` on `device`.
pub fn ip_command_args(cmd: &IpCommand, device: &String) -> (r: Vec<String>)
    ensures
        views(r@) == ip_args(*cmd, device@),
{
    let mut v: Vec<String> = Vec::new();
    match *cmd {
        IpCommand::LinkShow => {
            v.push(owned("link"));
            v.push(owned("show"));
            v.push(device.clone());
        },
        IpCommand::LinkAdd => {
            v.push(owned("link"));
            v.push(owned("add"));
            v.push(owned("dev"));
            v.push(device.clone());
            v.push(owned("type"));
            v.push(owned("wireguard"));
        },
        IpCommand::LinkUp => {
            v.push(owned("link"));
            v.push(owned("set"));
            v.push(owned("up"));
            v.push(owned("dev"));
            v.push(device.clone());
        },
        IpCommand::LinkDelete => {
            v.push(owned("link"));
            v.push(owned("delete"));
            v.push(device.clone());
        },
        IpCommand::AddrShow => {
            v.push(owned("addr"));
            v.push(owned("show"));
            v.push(device.clone());
        },
        IpCommand::AddrDelete(a, l) => {
            v.push(owned("addr"));
            v.push(owned("delete"));
            v.push(owned("dev"));
            v.push(device.clone());
            v.push(prefix_string(&a, l));
        },
        IpCommand::AddrAdd(a, l) => {
            v.push(owned("addr"));
            v.push(owned("add"));
            v.push(owned("dev"));
            v.push(device.clone());
            v.push(prefix_string(&a, l));
        },
    }
    assert(views(v@) =~= ip_args(*cmd, device@));
    v
}

/// The arguments of the WireGuard tool that load the configuration file at
/// `path` into `device`.
pub fn setconf_args(device: &String, path: &String) -> (r: Vec<String>)
    ensures
        views(r@) == seq!["setconf"@, device@, path@],
{
    let mut v: Vec<String> = Vec::new();
    v.push(owned("setconf"));
    v.push(device.clone());
    v.push(path.clone());
    assert(views(v@) =~= seq!["setconf"@, device@, path@]);
    v
}

// ---------------------------------------------------------------------------
// Bringing the device up
/// The steps of bringing the device up, each one command.
#[derive(Clone, Copy, Debug, PartialEq, Eq)]
pub enum LinkStep {
    Inspect,
    Create,
    BringUp,
}

/// What follows a step.
#[derive(Clone, Copy, Debug, PartialEq, Eq)]
pub enum LinkNext {
    /// Run this step next.
    Run(LinkStep),
    /// The device exists and is up.
    Done,
    /// A command failed: the cycle is abandoned.
    Failed(MeshError),
}

impl LinkStep {
    pub open spec fn spec_command(self) -> IpCommand {
        match self {
            LinkStep::Inspect => IpCommand::LinkShow,
            LinkStep::Create => IpCommand::LinkAdd,
            LinkStep::BringUp => IpCommand::LinkUp,
        }
    }

    /// The command that carries out this step.
    pub fn command(&self) -> (r: IpCommand)
        ensures
            r == self.spec_command(),
    {
        match *self {
            LinkStep::Inspect => IpCommand::LinkShow,
            LinkStep::Create => IpCommand::LinkAdd,
            LinkStep::BringUp => IpCommand::LinkUp,
        }
    }
}

/// Whether an exit code is success.
pub open spec fn succeeded(code: Option<i32>) -> bool {
    code == Some(0i32)
}

/// What follows `step` once its command exited with `code` (`None`: ended by
/// a signal). A device that the inspection does not find is created, then
/// brought up; a failure to create it or to bring it up ends the cycle.
pub open spec fn link_next(step: LinkStep, code: Option<i32>) -> LinkNext {
    match step {
        LinkStep::Inspect => if succeeded(code) {
            LinkNext::Done
        } else {
            LinkNext::Run(LinkStep::Create)
        },
        LinkStep::Create => if succeeded(code) {
            LinkNext::Run(LinkStep::BringUp)
        } else {
            LinkNext::Failed(MeshError::Interface(code))
        },
        LinkStep::BringUp => if succeeded(code) {
            LinkNext::Done
        } else {
            LinkNext::Failed(MeshError::Interface(code))
        },
    }
}

/// Makes sure the device exists and is up, one step at a time: starting from
/// `Inspect`, the caller runs each step's command and hands its exit code here.
pub fn make_interface_next(step: LinkStep, code: Option<i32>) -> (r: LinkNext)
    ensures
        r == link_next(step, code),
{
    let ok = match code {
        Some(c) => c == 0,
        None => false,
    };
    match step {
        LinkStep::Inspect => if ok {
            LinkNext::Done
        } else {
            LinkNext::Run(LinkStep::Create)
        },
        LinkStep::Create => if ok {
            LinkNext::Run(LinkStep::BringUp)
        } else {
            LinkNext::Failed(MeshError::Interface(code))
        },
        LinkStep::BringUp => if ok {
            LinkNext::Done
        } else {
            LinkNext::Failed(MeshError::Interface(code))
        },
    }
}

/// The exit code of a step's command, where inspecting, creating and bringing
/// up exit with `inspect`, `create` and `up`.
pub open spec fn code_of(step: LinkStep, inspect: Option<i32>, create: Option<i32>, up: Option<i32>) -> Option<i32> {
    match step {
        LinkStep::Inspect => inspect,
        LinkStep::Create => create,
        LinkStep::BringUp => up,
    }
}

/// The steps run from `step` on, at most `fuel` of them, and how the run ends.
pub open spec fn link_trace(
    step: LinkStep,
    inspect: Option<i32>,
    create: Option<i32>,
    up: Option<i32>,
    fuel: nat,
) -> (Seq<LinkStep>, LinkNext)
    decreases fuel,
{
    let next = link_next(step, code_of(step, inspect, create, up));
    if fuel <= 1 {
        (seq![step], next)
    } else {
        match next {
            LinkNext::Run(s) => {
                let rest = link_trace(s, inspect, create, up, (fuel - 1) as nat);
                (seq![step] + rest.0, rest.1)
            },
            _ => (seq![step], next),
        }
    }
}

/// A whole run of bringing the device up.
pub open spec fn link_run(inspect: Option<i32>, create: Option<i32>, up: Option<i32>) -> (Seq<LinkStep>, LinkNext) {
    link_trace(LinkStep::Inspect, inspect, create, up, 3)
}

/// Bringing the device up is idempotent: a run that succeeded leaves a device
/// that exists (it was found, or created); on a device that exists the
/// inspection exits 0, and a second run then issues the inspection alone, no
/// creation and no bringing up.
pub proof fn lemma_interface_up_idempotent(
    inspect: Option<i32>,
    create: Option<i32>,
    up: Option<i32>,
    create2: Option<i32>,
    up2: Option<i32>,
)
    requires
        link_run(inspect, create, up).1 == LinkNext::Done,
    ensures
        succeeded(inspect) || succeeded(create),
        link_run(Some(0i32), create2, up2).0 == seq![LinkStep::Inspect],
        link_run(Some(0i32), create2, up2).1 == LinkNext::Done,
{
    reveal_with_fuel(link_trace, 4);
}

// ---------------------------------------------------------------------------
// Converging the addresses
/// One change to the addresses of the device.
#[derive(Clone, Copy, Debug, PartialEq, Eq)]
pub enum AddrChange {
    Remove(IpAddress, u8),
    Add(IpAddress, u8),
}

impl AddrChange {
    pub open spec fn spec_command(self) -> IpCommand {
        match self {
            AddrChange::Remove(a, l) => IpCommand::AddrDelete(a, l),
            AddrChange::Add(a, l) => IpCommand::AddrAdd(a, l),
        }
    }

    /// The command that makes this change.
    pub fn command(&self) -> (r: IpCommand)
        ensures
            r == self.spec_command(),
    {
        match *self {
            AddrChange::Remove(a, l) => IpCommand::AddrDelete(a, l),
            AddrChange::Add(a, l) => IpCommand::AddrAdd(a, l),
        }
    }
}

/// A removal for every observed address that is not the desired one, in order.
pub open spec fn removals(observed: Seq<(IpAddress, u8)>, want: (IpAddress, u8)) -> Seq<AddrChange>
    decreases observed.len(),
{
    if observed.len() == 0 {
        Seq::empty()
    } else {
        let rest = removals(observed.drop_last(), want);
        if observed.last() == want {
            rest
        } else {
            rest.push(AddrChange::Remove(observed.last().0, observed.last().1))
        }
    }
}

/// All removals, then the addition of the desired address where it was not
/// among those observed.
pub open spec fn address_changes(observed: Seq<(IpAddress, u8)>, want: (IpAddress, u8)) -> Seq<AddrChange> {
    if observed.contains(want) {
        removals(observed, want)
    } else {
        removals(observed, want).push(AddrChange::Add(want.0, want.1))
    }
}

/// The changes that turn the observed addresses into the desired one alone.
pub fn address_plan(observed: &Vec<(IpAddress, u8)>, desired: IpAddress, len: u8) -> (r: Vec<AddrChange>)
    ensures
        r@ == address_changes(observed@, (desired, len)),
{
    let mut plan: Vec<AddrChange> = Vec::new();
    let mut present = false;
    let mut i: usize = 0;
    while i < observed.len()
        invariant
            i <= observed@.len(),
            plan@ == removals(observed@.subrange(0, i as int), (desired, len)),
            present == observed@.subrange(0, i as int).contains((desired, len)),
        decreases observed@.len() - i,
    {
        let (a, l) = observed[i];
        let sub = Ghost(observed@.subrange(0, i + 1));
        proof {
            assert(sub@.drop_last() =~= observed@.subrange(0, i as int));
        }
        if a == desired && l == len {
            present = true;
            proof {
                assert(sub@[i as int] == (desired, len));
            }
        } else {
            plan.push(AddrChange::Remove(a, l));
            proof {
                assert forall|x| sub@.contains(x) == (observed@.subrange(0, i as int).contains(x) || x == (a, l)) by {
                    if sub@.contains(x) {
                        let k = choose|k: int| 0 <= k < sub@.len() && sub@[k] == x;
                        if k < i {
                            assert(observed@.subrange(0, i as int)[k] == x);
                        }
                    }
                    if observed@.subrange(0, i as int).contains(x) {
                        let k = choose|k: int| 0 <= k < i && observed@.subrange(0, i as int)[k] == x;
                        assert(sub@[k] == x);
                    }
                    if x == (a, l) {
                        assert(sub@[i as int] == x);
                    }
                };
            }
        }
        proof {
            if present && !observed@.subrange(0, i as int).contains((desired, len)) {
                assert(sub@[i as int] == (desired, len));
            }
        }
        i = i + 1;
    }
    assert(observed@.subrange(0, i as int) =~= observed@);
    if !present {
        plan.push(AddrChange::Add(desired, len));
    }
    plan
}

/// The addresses present after applying `changes` in order to `present`.
pub open spec fn apply_changes(present: Set<(IpAddress, u8)>, changes: Seq<AddrChange>) -> Set<(IpAddress, u8)>
    decreases changes.len(),
{
    if changes.len() == 0 {
        present
    } else {
        let before = apply_changes(present, changes.drop_last());
        match changes.last() {
            AddrChange::Remove(a, l) => before.remove((a, l)),
            AddrChange::Add(a, l) => before.insert((a, l)),
        }
    }
}

proof fn lemma_removals_apply(s: Set<(IpAddress, u8)>, observed: Seq<(IpAddress, u8)>, want: (IpAddress, u8))
    ensures
        apply_changes(s, removals(observed, want)) == s.difference(observed.to_set().remove(want)),
    decreases observed.len(),
{
    if observed.len() == 0 {
        assert(observed.to_set().remove(want) =~= Set::empty());
        assert(s.difference(Set::empty()) =~= s);
    } else {
        let prev = observed.drop_last();
        lemma_removals_apply(s, prev, want);
        assert forall|x| observed.contains(x) == (prev.contains(x) || x == observed.last()) by {
            if observed.contains(x) {
                let k = choose|k: int| 0 <= k < observed.len() && observed[k] == x;
                if k < observed.len() - 1 {
                    assert(prev[k] == x);
                }
            }
            if prev.contains(x) {
                let k = choose|k: int| 0 <= k < prev.len() && prev[k] == x;
                assert(observed[k] == x);
            }
        };
        let r = removals(observed, want);
        if observed.last() != want {
            assert(r.drop_last() == removals(prev, want));
        }
        assert(apply_changes(s, r) =~= s.difference(observed.to_set().remove(want)));
    }
}

/// Address correction converges in one pass: whatever addresses the device
/// held, none or many, the desired one among them or not, after the changes
/// it holds the desired address alone. Where it held exactly that address,
/// there is nothing to change.
pub proof fn lemma_address_correction_converges(observed: Seq<(IpAddress, u8)>, want: (IpAddress, u8))
    ensures
        apply_changes(observed.to_set(), address_changes(observed, want)) == set![want],
        observed.to_set() == set![want] ==> address_changes(observed, want).len() == 0,
{
    let s = observed.to_set();
    lemma_removals_apply(s, observed, want);
    let r = removals(observed, want);
    let plan = address_changes(observed, want);
    if observed.contains(want) {
        assert(s.difference(s.remove(want)) =~= set![want]);
    } else {
        assert(s.difference(s.remove(want)) =~= Set::empty());
        assert(plan.drop_last() == r);
        assert(apply_changes(s, plan) =~= set![want]);
    }
    if s == set![want] {
        assert forall|x| observed.contains(x) implies x == want by {
            assert(s.contains(x));
        };
        lemma_no_removals(observed, want);
    }
}

proof fn lemma_no_removals(observed: Seq<(IpAddress, u8)>, want: (IpAddress, u8))
    requires
        forall|x| observed.contains(x) ==> x == want,
    ensures
        removals(observed, want).len() == 0,
    decreases observed.len(),
{
    if observed.len() > 0 {
        let prev = observed.drop_last();
        assert forall|x| prev.contains(x) implies x == want by {
            let k = choose|k: int| 0 <= k < prev.len() && prev[k] == x;
            assert(observed[k] == x);
            assert(observed.contains(x));
        };
        lemma_no_removals(prev, want);
        assert(observed.contains(observed.last()));
    }
}

/// What the exit code of a command on the device means for the cycle:
/// success, or the failure carrying the code.
pub fn command_outcome(code: Option<i32>) -> (r: Result<(), MeshError>)
    ensures
        succeeded(code) ==> r is Ok,
        !succeeded(code) ==> r == Err::<(), MeshError>(MeshError::Interface(code)),
{
    match code {
        Some(0) => Ok(()),
        _ => Err(MeshError::Interface(code)),
    }
}

/// What the exit code of the WireGuard tool means for the cycle.
pub fn setconf_outcome(code: Option<i32>) -> (r: Result<(), MeshError>)
    ensures
        succeeded(code) ==> r is Ok,
        !succeeded(code) ==> r == Err::<(), MeshError>(MeshError::Apply(code)),
{
    match code {
        Some(0) => Ok(()),
        _ => Err(MeshError::Apply(code)),
    }
}

} // verus!
