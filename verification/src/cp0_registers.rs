//! Coprocessor 0 register names and the table that places the implemented ones.
use vstd::prelude::*;

verus! {

/// Every register that is part of the coprocessor 0 definition; most go unused.
#[derive(Clone, Copy, PartialEq, Eq, Structural, Debug)]
pub enum Register {
    Index,
    MVPControl,
    MVPConf0,
    MVPConf1,
    Random,
    VPEControl,
    VPEConf0,
    VPEConf1,
    YQMask,
    VPESchedule,
    VPEScheFBack,
    VPEOpt,
    EntryLo0,
    TCStatus,
    TCBind,
    TCRestart,
    TCHalt,
    TCContext,
    TCSchedule,
    TCScheFBack,
    EntryLo1,
    TCOpt,
    Context,
    ContextConfig,
    UserLocal,
    PageMask,
    PageGrain,
    SegCtl0,
    SegCtl1,
    SegCtl2,
    PWBase,
    PWField,
    PWSize,
    Wired,
    SRSConf0,
    SRSConf1,
    SRSConf2,
    SRSConf3,
    SRSConf4,
    PWCtl,
    HWREna,
    BadVAddr,
    BadInstr,
    BadInstrP,
    Count,
    EntryHi,
    GuestCtl1,
    GuestCtl2,
    GuestCtl3,
    Compare,
    GuestCtl0Ext,
    Status,
    IntCtl,
    SRSCtl,
    SRSMap,
    ViewIPL,
    SRSMap2,
    GuestCtl0,
    GTOffset,
    Cause,
    ViewRIPL,
    NestedEcx,
    EPC,
    NestedEPC,
    PRId,
    EBase,
    CDMMBase,
    CMGCRBase,
    Config,
    Config1,
    Config2,
    Config3,
    Config4,
    Config5,
    LLAddr,
    WatchLo,
    WatchHi,
    Debug,
    TraceControl,
    TraceControl2,
    UserTraceData1,
    TraceIBPC,
    TraceDBPC,
    Debug2,
    DEPC,
    TraceControl3,
    UserTraceData2,
    PerfCnt,
    ErrCtl,
    CacheErr,
    TagLo,
    DataLo,
    TagHi,
    DataHi,
    ErrorEPC,
    DESAVE,
    KScratchn,
}

/// Where an implemented coprocessor 0 register lives.
pub struct Cp0RegisterInformation {
    pub name: Register,
    pub register: usize,
    pub select: usize,
}

/// The register number of `reg`, for the registers this coprocessor implements
/// (Status is 12, Cause is 13, EPC is 14).
pub open spec fn cp0_register_number(reg: Register) -> Option<usize> {
    match reg {
        Register::Status => Some(12usize),
        Register::Cause => Some(13usize),
        Register::EPC => Some(14usize),
        _ => None,
    }
}

/// The correspondence between the implemented registers and their numbers.
pub fn cp0_register_info() -> (table: Vec<Cp0RegisterInformation>)
    ensures
        table@.len() == 3,
        forall|i: int| 0 <= i < 3 ==> #[trigger] cp0_register_number(table@[i].name) == Some(table@[i].register),
        forall|i: int| 0 <= i < 3 ==> #[trigger] table@[i].select == 0,
        forall|r: Register| cp0_register_number(r) is Some ==> exists|i: int| 0 <= i < 3 && #[trigger] table@[i].name == r,
{
    let table = vec![
        Cp0RegisterInformation { name: Register::Status, register: 12, select: 0 },
        Cp0RegisterInformation { name: Register::Cause, register: 13, select: 0 },
        Cp0RegisterInformation { name: Register::EPC, register: 14, select: 0 },
    ];
    assert forall|r: Register| cp0_register_number(r) is Some implies exists|i: int| 0 <= i < 3 && #[trigger] table@[i].name == r by {
        if r == Register::Status {
            assert(table@[0].name == r);
        } else if r == Register::Cause {
            assert(table@[1].name == r);
        } else {
            assert(table@[2].name == r);
        }
    }
    table
}

/// The register number of an implemented coprocessor 0 register.
pub fn to_register(reg: Register) -> (n: usize)
    requires
        cp0_register_number(reg) is Some,
    ensures
        cp0_register_number(reg) == Some(n),
{
    match reg {
        Register::Status => 12,
        Register::Cause => 13,
        _ => 14,
    }
}

} // verus!
