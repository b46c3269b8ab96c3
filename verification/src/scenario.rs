//! The scenario library: the four named load cases, their parameters, and
//! the operation plans for the untimed setup phase and the timed measured
//! phase. The plans pin down exactly how many operations of each kind a
//! scenario issues.

use crate::executor::TaskBatch;
use vstd::prelude::*;

verus! {

#[derive(Debug)]
pub struct CaseOneArgs {
    pub n: u32,
}

#[derive(Debug)]
pub struct CaseTwoArgs {
    pub wishes: u32,
}

#[derive(Debug)]
pub struct CaseThreeArgs {
    pub wishes: u32,
}

#[derive(Debug)]
pub struct CaseFourArgs {
    pub times: u32,
}

/// The four load scenarios: register N users; register 10 users and create
/// wishes; create wishes and read them all in one request; create one wish
/// and read it repeatedly.
pub enum CaseNum {
    One(CaseOneArgs),
    Two(CaseTwoArgs),
    Three(CaseThreeArgs),
    Four(CaseFourArgs),
}

/// The command selected on the command line: run a load case, or emit shell
/// completions.
pub enum TestingCommand {
    Case(CaseNum),
    Generate,
}

/// The operations of one phase. Registrations fan out concurrently, one task
/// per user; logins are sequential; wish creations fan out over `wish_users`
/// concurrent lanes, each creating `wishes_per_user` records; reads are
/// sequential.
pub struct PhasePlan {
    pub register_users: u32,
    pub login_users: u32,
    pub wish_users: u32,
    pub wishes_per_user: u32,
    pub reads: u32,
}

impl PhasePlan {
    pub open spec fn register_ops(&self) -> nat {
        self.register_users as nat
    }

    /// Total wish-creation operations the phase issues.
    pub open spec fn wish_ops(&self) -> nat {
        (self.wish_users * self.wishes_per_user) as nat
    }

    pub open spec fn read_ops(&self) -> nat {
        self.reads as nat
    }

    pub open spec fn empty_spec() -> PhasePlan {
        PhasePlan {
            register_users: 0,
            login_users: 0,
            wish_users: 0,
            wishes_per_user: 0,
            reads: 0,
        }
    }

    /// Total wish-creation operations, computed without overflow.
    pub fn wish_ops_exec(&self) -> (r: u64)
        ensures
            r == self.wish_ops(),
    {
        proof {
            let a = self.wish_users as int;
            let b = self.wishes_per_user as int;
            assert(a * b <= 0xffff_ffff * 0xffff_ffff) by (nonlinear_arith)
                requires
                    0 <= a <= 0xffff_ffff,
                    0 <= b <= 0xffff_ffff,
            ;
        }
        self.wish_users as u64 * self.wishes_per_user as u64
    }
}

impl CaseNum {
    /// The untimed setup phase. Only the bulk-read and repeated-read
    /// scenarios do untimed fixture work: one registered and logged-in user
    /// whose wishes exist before the timer starts.
    pub open spec fn setup_plan_spec(&self) -> PhasePlan {
        match self {
            CaseNum::One(_) => PhasePlan::empty_spec(),
            CaseNum::Two(_) => PhasePlan::empty_spec(),
            CaseNum::Three(args) => PhasePlan {
                register_users: 1,
                login_users: 1,
                wish_users: 1,
                wishes_per_user: args.wishes,
                reads: 0,
            },
            CaseNum::Four(_) => PhasePlan {
                register_users: 1,
                login_users: 1,
                wish_users: 1,
                wishes_per_user: 1,
                reads: 0,
            },
        }
    }

    /// The timed measured phase.
    pub open spec fn measured_plan_spec(&self) -> PhasePlan {
        match self {
            CaseNum::One(args) => PhasePlan {
                register_users: args.n,
                login_users: 0,
                wish_users: 0,
                wishes_per_user: 0,
                reads: 0,
            },
            CaseNum::Two(args) => PhasePlan {
                register_users: 10,
                login_users: 10,
                wish_users: 10,
                wishes_per_user: args.wishes / 10,
                reads: 0,
            },
            CaseNum::Three(_) => PhasePlan {
                register_users: 0,
                login_users: 0,
                wish_users: 0,
                wishes_per_user: 0,
                reads: 1,
            },
            CaseNum::Four(args) => PhasePlan {
                register_users: 0,
                login_users: 0,
                wish_users: 0,
                wishes_per_user: 0,
                reads: args.times,
            },
        }
    }

    pub fn setup_plan(&self) -> (p: PhasePlan)
        ensures
            p == self.setup_plan_spec(),
    {
        match self {
            CaseNum::One(_) | CaseNum::Two(_) => PhasePlan {
                register_users: 0,
                login_users: 0,
                wish_users: 0,
                wishes_per_user: 0,
                reads: 0,
            },
            CaseNum::Three(args) => PhasePlan {
                register_users: 1,
                login_users: 1,
                wish_users: 1,
                wishes_per_user: args.wishes,
                reads: 0,
            },
            CaseNum::Four(_) => PhasePlan {
                register_users: 1,
                login_users: 1,
                wish_users: 1,
                wishes_per_user: 1,
                reads: 0,
            },
        }
    }

    pub fn measured_plan(&self) -> (p: PhasePlan)
        ensures
            p == self.measured_plan_spec(),
    {
        match self {
            CaseNum::One(args) => PhasePlan {
                register_users: args.n,
                login_users: 0,
                wish_users: 0,
                wishes_per_user: 0,
                reads: 0,
            },
            CaseNum::Two(args) => PhasePlan {
                register_users: 10,
                login_users: 10,
                wish_users: 10,
                wishes_per_user: args.wishes / 10,
                reads: 0,
            },
            CaseNum::Three(_) => PhasePlan {
                register_users: 0,
                login_users: 0,
                wish_users: 0,
                wishes_per_user: 0,
                reads: 1,
            },
            CaseNum::Four(args) => PhasePlan {
                register_users: 0,
                login_users: 0,
                wish_users: 0,
                wishes_per_user: 0,
                reads: args.times,
            },
        }
    }
}

/// Each of `users` concurrent lanes creates `total / users` wish records;
/// the remainder of the requested total is dropped.
pub fn wishes_per_user(total: u32, users: u32) -> (r: u32)
    requires
        users > 0,
    ensures
        r == total / users,
{
    total / users
}

/// Register-N issues exactly N registration operations, and a completed
/// batch over them settles exactly N outcomes, however many individual
/// registrations failed.
pub proof fn lemma_register_scenario_outcomes(args: CaseOneArgs, b: &TaskBatch)
    requires
        b.wf(),
        b.total == CaseNum::One(args).measured_plan_spec().register_ops(),
        b.launched == b.total,
        b.settled() == b.launched,
    ensures
        b.outcomes@.len() == args.n,
{
}

/// Register-10-and-create-wishes issues exactly `10 * (wishes / 10)`
/// wish-creation operations: the remainder of a total not divisible by the
/// ten users is dropped, and never more than the requested total is issued.
pub proof fn lemma_case_two_wish_ops(args: CaseTwoArgs)
    ensures
        CaseNum::Two(args).measured_plan_spec().wish_ops() == 10 * (args.wishes / 10),
        CaseNum::Two(args).measured_plan_spec().wish_ops() <= args.wishes,
{
    assert(10 * (args.wishes as int / 10) <= args.wishes as int) by (nonlinear_arith);
}

} // verus!
