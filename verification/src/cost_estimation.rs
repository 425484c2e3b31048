//! Fee estimates for ledger operations, with the factors that drive them.

use crate::clock::Timestamp;
use crate::strmap::StrMap;
use crate::text;
use crate::text::{list1, list2, numbered, parse_unsigned};
use vstd::prelude::*;
use vstd::string::*;

verus! {

/// The fee schedule, in stroops (ten million stroops make one XLM).
pub struct FeeConfig {
    /// Base transaction fee in stroops.
    pub base_fee_stroops: u64,
    /// Per-byte fee for instruction bandwidth.
    pub byte_fee_stroops: u64,
    /// Write-entry fee per ledger key written.
    pub write_entry_fee_stroops: u64,
    /// Read-entry fee per ledger key read.
    pub read_entry_fee_stroops: u64,
    /// State archival rent per entry per ledger.
    pub rent_fee_per_ledger_stroops: u64,
    /// Number of ledgers the TTL extension covers.
    pub default_ttl_extension_ledgers: u64,
}

impl Default for FeeConfig {
    fn default() -> (r: Self)
        ensures
            r == default_fees(),
    {
        FeeConfig {
            base_fee_stroops: 100,
            byte_fee_stroops: 10,
            write_entry_fee_stroops: 2_500,
            read_entry_fee_stroops: 500,
            rent_fee_per_ledger_stroops: 50,
            default_ttl_extension_ledgers: 100,
        }
    }
}

/// The fee schedule that applies when nothing is configured.
pub open spec fn default_fees() -> FeeConfig {
    FeeConfig {
        base_fee_stroops: 100,
        byte_fee_stroops: 10,
        write_entry_fee_stroops: 2_500,
        read_entry_fee_stroops: 500,
        rent_fee_per_ledger_stroops: 50,
        default_ttl_extension_ledgers: 100,
    }
}

/// The number that the variable `key` sets: `default` unless it is present
/// and holds an unsigned 64-bit number.
pub open spec fn setting(vars: Map<Seq<char>, String>, key: Seq<char>, default: u64) -> u64 {
    if vars.contains_key(key) {
        match text::unsigned_value(vars[key]@) {
            Some(v) => if v <= u64::MAX {
                v as u64
            } else {
                default
            },
            None => default,
        }
    } else {
        default
    }
}

/// The number that the variable `key` sets, or `default`.
pub fn env_u64(vars: &StrMap<String>, key: &str, default: u64) -> (r: u64)
    ensures
        r == setting(vars@, key@, default),
{
    match vars.get(key) {
        Some(text) => match parse_unsigned(text.as_str(), u64::MAX) {
            Some(v) => v,
            None => default,
        },
        None => default,
    }
}

impl FeeConfig {
    /// The fee schedule set by environment variables, each falling back to
    /// its default.
    pub fn from_env(vars: &StrMap<String>) -> (r: Self)
        ensures
            r.base_fee_stroops == setting(vars@, "COST_BASE_FEE_STROOPS"@, 100),
            r.byte_fee_stroops == setting(vars@, "COST_BYTE_FEE_STROOPS"@, 10),
            r.write_entry_fee_stroops == setting(vars@, "COST_WRITE_ENTRY_FEE_STROOPS"@, 2_500),
            r.read_entry_fee_stroops == setting(vars@, "COST_READ_ENTRY_FEE_STROOPS"@, 500),
            r.rent_fee_per_ledger_stroops == setting(
                vars@,
                "COST_RENT_FEE_PER_LEDGER_STROOPS"@,
                50,
            ),
            r.default_ttl_extension_ledgers == setting(
                vars@,
                "COST_DEFAULT_TTL_EXTENSION_LEDGERS"@,
                100,
            ),
    {
        let def = FeeConfig::default();
        FeeConfig {
            base_fee_stroops: env_u64(vars, "COST_BASE_FEE_STROOPS", def.base_fee_stroops),
            byte_fee_stroops: env_u64(vars, "COST_BYTE_FEE_STROOPS", def.byte_fee_stroops),
            write_entry_fee_stroops: env_u64(
                vars,
                "COST_WRITE_ENTRY_FEE_STROOPS",
                def.write_entry_fee_stroops,
            ),
            read_entry_fee_stroops: env_u64(
                vars,
                "COST_READ_ENTRY_FEE_STROOPS",
                def.read_entry_fee_stroops,
            ),
            rent_fee_per_ledger_stroops: env_u64(
                vars,
                "COST_RENT_FEE_PER_LEDGER_STROOPS",
                def.rent_fee_per_ledger_stroops,
            ),
            default_ttl_extension_ledgers: env_u64(
                vars,
                "COST_DEFAULT_TTL_EXTENSION_LEDGERS",
                def.default_ttl_extension_ledgers,
            ),
        }
    }
}

/// The operations that can be priced.
#[derive(Debug, Clone, Copy, PartialEq, Eq, Structural)]
pub enum OperationType {
    CreateVault,
    CheckIn,
    Deposit,
    Withdraw,
    TriggerRelease,
    UpdateBeneficiary,
    BulkCheckIn,
    /// Any operation not listed above.
    Custom,
}

impl OperationType {
    /// The name of the operation, as it stands in the code.
    pub open spec fn spec_name(self) -> Seq<char> {
        match self {
            OperationType::CreateVault => "CreateVault"@,
            OperationType::CheckIn => "CheckIn"@,
            OperationType::Deposit => "Deposit"@,
            OperationType::Withdraw => "Withdraw"@,
            OperationType::TriggerRelease => "TriggerRelease"@,
            OperationType::UpdateBeneficiary => "UpdateBeneficiary"@,
            OperationType::BulkCheckIn => "BulkCheckIn"@,
            OperationType::Custom => "Custom"@,
        }
    }

    /// The name of the operation, as it stands in the code.
    pub fn name(&self) -> (r: String)
        ensures
            r@ == self.spec_name(),
    {
        match self {
            OperationType::CreateVault => "CreateVault".to_owned(),
            OperationType::CheckIn => "CheckIn".to_owned(),
            OperationType::Deposit => "Deposit".to_owned(),
            OperationType::Withdraw => "Withdraw".to_owned(),
            OperationType::TriggerRelease => "TriggerRelease".to_owned(),
            OperationType::UpdateBeneficiary => "UpdateBeneficiary".to_owned(),
            OperationType::BulkCheckIn => "BulkCheckIn".to_owned(),
            OperationType::Custom => "Custom".to_owned(),
        }
    }
}

/// Stroops in one XLM.
pub const STROOPS_PER_XLM: u64 = 10_000_000;

/// An amount of XLM, exact to its seven decimal places.
#[derive(Debug, Clone, Copy, PartialEq, Eq, Structural)]
pub struct XlmAmount {
    /// Whole XLM.
    pub whole: u64,
    /// The rest, in stroops.
    pub stroops: u64,
}

/// Detailed cost breakdown for a single operation.
pub struct CostBreakdown {
    pub base_fee_stroops: u64,
    pub instruction_fee_stroops: u64,
    pub write_entries_fee_stroops: u64,
    pub read_entries_fee_stroops: u64,
    pub rent_fee_stroops: u64,
    pub total_stroops: u64,
    /// Convenience: the total in XLM.
    pub total_xlm: XlmAmount,
    /// Human-readable description of what drives the cost.
    pub notes: Vec<String>,
}

/// The five fees that make up a price.
pub struct Charges {
    pub base: int,
    pub instructions: int,
    pub write_entries: int,
    pub read_entries: int,
    pub rent: int,
}

impl Charges {
    /// What the fees come to.
    pub open spec fn total(self) -> int {
        self.base + self.instructions + self.write_entries + self.read_entries + self.rent
    }
}

impl CostBreakdown {
    /// Whether the breakdown shows exactly these fees, their total in both
    /// units, and these notes.
    pub open spec fn shows(self, c: Charges, notes: Seq<Seq<char>>) -> bool {
        &&& self.base_fee_stroops == c.base
        &&& self.instruction_fee_stroops == c.instructions
        &&& self.write_entries_fee_stroops == c.write_entries
        &&& self.read_entries_fee_stroops == c.read_entries
        &&& self.rent_fee_stroops == c.rent
        &&& self.total_stroops == c.total()
        &&& self.total_xlm.whole == c.total() / 10_000_000
        &&& self.total_xlm.stroops == c.total() % 10_000_000
        &&& text::texts(self.notes@) == notes
    }

    /// The breakdown of five fees.
    pub fn new(
        base: u64,
        instructions: u64,
        write_entries: u64,
        read_entries: u64,
        rent: u64,
        notes: Vec<String>,
    ) -> (r: Self)
        requires
            base + instructions + write_entries + read_entries + rent <= u64::MAX,
        ensures
            r.shows(
                (Charges {
                    base: base as int,
                    instructions: instructions as int,
                    write_entries: write_entries as int,
                    read_entries: read_entries as int,
                    rent: rent as int,
                }),
                text::texts(notes@),
            ),
            r.notes == notes,
    {
        let total: u64 = base + instructions + write_entries + read_entries + rent;
        CostBreakdown {
            base_fee_stroops: base,
            instruction_fee_stroops: instructions,
            write_entries_fee_stroops: write_entries,
            read_entries_fee_stroops: read_entries,
            rent_fee_stroops: rent,
            total_stroops: total,
            total_xlm: XlmAmount {
                whole: total / STROOPS_PER_XLM,
                stroops: total % STROOPS_PER_XLM,
            },
            notes,
        }
    }
}

/// What a scenario was computed from.
pub struct ScenarioParameters {
    pub operation: String,
    pub amount_stroops: Option<u64>,
    pub bulk_count: Option<u64>,
}

/// A labelled variation of an operation with parameters of its own.
pub struct CostScenario {
    pub name: String,
    pub description: String,
    pub parameters: ScenarioParameters,
    pub breakdown: CostBreakdown,
}

/// A request for an estimate.
pub struct EstimateCostRequest {
    pub operation: OperationType,
    /// Optional vault ID.
    pub vault_id: Option<String>,
    /// For deposits and withdrawals: the amount in stroops.
    pub amount_stroops: Option<u64>,
    /// For bulk check-ins: number of vaults.
    pub bulk_count: Option<u64>,
    /// For custom operations: payload size in bytes.
    pub payload_bytes: Option<u64>,
    /// If true, also return common scenario variants.
    pub include_scenarios: Option<bool>,
}

/// An estimate.
pub struct EstimateCostResponse {
    pub operation: OperationType,
    pub breakdown: CostBreakdown,
    pub scenarios: Vec<CostScenario>,
    pub estimated_at: Timestamp,
    /// Link to the cost documentation.
    pub docs_url: String,
}

/// The value of an optional number, or `default`.
pub open spec fn or_default(v: Option<u64>, default: u64) -> u64 {
    match v {
        Some(x) => x,
        None => default,
    }
}

/// The number of vaults of a bulk check-in: at least one.
pub open spec fn bulk_vaults(req: EstimateCostRequest) -> int {
    if or_default(req.bulk_count, 1) == 0 {
        1
    } else {
        or_default(req.bulk_count, 1) as int
    }
}

/// The rent for one extension of a TTL entry.
pub open spec fn extension_rent(c: FeeConfig) -> int {
    c.rent_fee_per_ledger_stroops * c.default_ttl_extension_ledgers
}

/// A price made of `bytes` instruction bytes, `writes` written keys, `reads`
/// read keys and `rents` TTL extensions.
pub open spec fn priced(c: FeeConfig, bytes: int, writes: int, reads: int, rents: int) -> Charges {
    Charges {
        base: c.base_fee_stroops as int,
        instructions: c.byte_fee_stroops * bytes,
        write_entries: c.write_entry_fee_stroops * writes,
        read_entries: c.read_entry_fee_stroops * reads,
        rent: extension_rent(c) * rents,
    }
}

/// The price list: what each operation is charged for.
pub open spec fn charges(c: FeeConfig, req: EstimateCostRequest) -> Charges {
    match req.operation {
        OperationType::CreateVault => priced(c, 500, 3, 1, 1),
        OperationType::CheckIn => priced(c, 200, 1, 1, 1),
        OperationType::Deposit => priced(c, 300, 2, 1, 0),
        OperationType::Withdraw => priced(c, 400, 2, 2, 0),
        OperationType::TriggerRelease => priced(c, 800, 3, 2, 0),
        OperationType::UpdateBeneficiary => priced(c, 250, 2, 1, 0),
        OperationType::BulkCheckIn => priced(
            c,
            200 * bulk_vaults(req),
            bulk_vaults(req),
            bulk_vaults(req),
            bulk_vaults(req),
        ),
        OperationType::Custom => priced(c, or_default(req.payload_bytes, 256) as int, 1, 1, 0),
    }
}

/// The notes that explain a price.
pub open spec fn notes(c: FeeConfig, req: EstimateCostRequest) -> Seq<Seq<char>> {
    let ledgers = text::decimal(c.default_ttl_extension_ledgers as nat);
    let amount = or_default(req.amount_stroops, 0);
    match req.operation {
        OperationType::CreateVault => seq![
            "Writes 3 ledger entries (vault, beneficiary, TTL counter)"@,
            "Rent for "@ + ledgers + " ledgers of initial TTL"@,
        ],
        OperationType::CheckIn => seq![
            "Updates TTL ledger entry"@,
            "Extends TTL by "@ + ledgers + " ledgers"@,
        ],
        OperationType::Deposit => if amount > 0 {
            seq![
                "Updates vault balance and appends deposit event"@,
                "Depositing "@ + text::decimal(amount as nat) + " stroops"@,
            ]
        } else {
            seq!["Updates vault balance and appends deposit event"@]
        },
        OperationType::Withdraw => if amount > 0 {
            seq![
                "Verifies balance, writes updated balance + withdrawal log"@,
                "Withdrawing "@ + text::decimal(amount as nat) + " stroops"@,
            ]
        } else {
            seq!["Verifies balance, writes updated balance + withdrawal log"@]
        },
        OperationType::TriggerRelease => seq![
            "Verifies TTL expiry, transfers balance to beneficiary"@,
            "Writes release record and clears vault state"@,
        ],
        OperationType::UpdateBeneficiary => seq![
            "Updates beneficiary address and writes audit entry"@,
        ],
        OperationType::BulkCheckIn => seq![
            "Bulk check-in for "@ + text::decimal(bulk_vaults(req) as nat) + " vaults"@,
            "Each vault incurs individual write + rent cost"@,
        ],
        OperationType::Custom => seq![
            "Custom operation with "@ + text::decimal(or_default(req.payload_bytes, 256) as nat)
                + " byte payload"@,
        ],
    }
}

/// Whether the price of the request can be held in 64 bits.
pub open spec fn affordable(c: FeeConfig, req: EstimateCostRequest) -> bool {
    charges(c, req).total() <= u64::MAX
}

/// One canned scenario: its name, its description and its request.
pub struct ScenarioPlan {
    pub name: Seq<char>,
    pub description: Seq<char>,
    pub req: EstimateCostRequest,
}

/// A request for `operation` with nothing but the given parameters.
pub open spec fn plain_request(
    operation: OperationType,
    amount: Option<u64>,
    bulk: Option<u64>,
) -> EstimateCostRequest {
    EstimateCostRequest {
        operation,
        vault_id: None,
        amount_stroops: amount,
        bulk_count: bulk,
        payload_bytes: None,
        include_scenarios: None,
    }
}

/// The scenarios offered for an operation.
pub open spec fn scenario_plans(operation: OperationType) -> Seq<ScenarioPlan> {
    match operation {
        OperationType::Deposit => seq![
            ScenarioPlan {
                name: "small_deposit"@,
                description: "Deposit 100 XLM"@,
                req: plain_request(OperationType::Deposit, Some(1_000_000_000), None),
            },
            ScenarioPlan {
                name: "large_deposit"@,
                description: "Deposit 10,000 XLM"@,
                req: plain_request(OperationType::Deposit, Some(100_000_000_000), None),
            },
        ],
        OperationType::BulkCheckIn => seq![
            ScenarioPlan {
                name: "bulk_10"@,
                description: "Bulk check-in for 10 vaults"@,
                req: plain_request(OperationType::BulkCheckIn, None, Some(10)),
            },
            ScenarioPlan {
                name: "bulk_100"@,
                description: "Bulk check-in for 100 vaults"@,
                req: plain_request(OperationType::BulkCheckIn, None, Some(100)),
            },
        ],
        _ => seq![],
    }
}

/// Whether `s` is the scenario that `plan` describes under the schedule `c`.
pub open spec fn fulfils(c: FeeConfig, plan: ScenarioPlan, s: CostScenario) -> bool {
    &&& s.name@ == plan.name
    &&& s.description@ == plan.description
    &&& s.parameters.operation@ == plan.req.operation.spec_name()
    &&& s.parameters.amount_stroops == plan.req.amount_stroops
    &&& s.parameters.bulk_count == plan.req.bulk_count
    &&& s.breakdown.shows(charges(c, plan.req), notes(c, plan.req))
}

/// Whether `out` holds the scenarios of `plans`, in order.
pub open spec fn fulfils_all(
    c: FeeConfig,
    plans: Seq<ScenarioPlan>,
    out: Seq<CostScenario>,
) -> bool {
    &&& out.len() == plans.len()
    &&& forall|i: int| 0 <= i < plans.len() ==> fulfils(c, plans[i], #[trigger] out[i])
}

/// Whether the price of every plan can be held in 64 bits.
pub open spec fn all_affordable(c: FeeConfig, plans: Seq<ScenarioPlan>) -> bool {
    forall|i: int| 0 <= i < plans.len() ==> affordable(c, #[trigger] plans[i].req)
}

/// The scenarios that the request asks for.
pub open spec fn requested_plans(req: EstimateCostRequest) -> Seq<ScenarioPlan> {
    if req.include_scenarios == Some(true) {
        scenario_plans(req.operation)
    } else {
        seq![]
    }
}

/// The product of two numbers, where it can be held in 64 bits.
fn product(a: u64, b: u128) -> (r: Option<u64>)
    ensures
        match r {
            Some(v) => v == a * b,
            None => a * b > u64::MAX,
        },
{
    if a == 0 {
        assert(0 * b == 0);
        return Some(0);
    }
    if b > u64::MAX as u128 {
        assert(a * b > u64::MAX) by (nonlinear_arith)
            requires
                a >= 1,
                b > u64::MAX,
        ;
        return None;
    }
    a.checked_mul(b as u64)
}

/// Prices operations under a fee schedule.
pub struct CostEstimator {
    config: FeeConfig,
}

impl CostEstimator {
    /// The fee schedule in force.
    pub closed spec fn schedule(self) -> FeeConfig {
        self.config
    }

    /// An estimator for the given schedule.
    pub fn new(config: FeeConfig) -> (r: Self)
        ensures
            r.schedule() == config,
    {
        CostEstimator { config }
    }

    /// An estimator for the default schedule.
    pub fn with_defaults() -> (r: Self)
        ensures
            r.schedule() == default_fees(),
    {
        CostEstimator::new(FeeConfig::default())
    }

    /// Whether `r` answers `req`, whatever the moment of the estimate.
    pub open spec fn answers(self, req: EstimateCostRequest, r: EstimateCostResponse) -> bool {
        &&& r.operation == req.operation
        &&& r.breakdown.shows(charges(self.schedule(), req), notes(self.schedule(), req))
        &&& fulfils_all(self.schedule(), requested_plans(req), r.scenarios@)
        &&& r.docs_url@ == "/docs/cost-estimation"@
    }

    /// Estimate the cost for the given request.
    pub fn estimate(&self, req: &EstimateCostRequest) -> (r: EstimateCostResponse)
        requires
            affordable(self.schedule(), *req),
            all_affordable(self.schedule(), requested_plans(*req)),
        ensures
            self.answers(*req, r),
    {
        self.estimate_at(req, Timestamp::now())
    }

    /// Estimate the cost for the given request at the moment `now`.
    pub fn estimate_at(&self, req: &EstimateCostRequest, now: Timestamp) -> (r:
        EstimateCostResponse)
        requires
            affordable(self.schedule(), *req),
            all_affordable(self.schedule(), requested_plans(*req)),
        ensures
            self.answers(*req, r),
            r.estimated_at == now,
    {
        let breakdown = self.compute_breakdown(req);
        let wanted: bool = match req.include_scenarios {
            Some(b) => b,
            None => false,
        };
        let scenarios = if wanted {
            self.build_scenarios(&req.operation)
        } else {
            Vec::new()
        };
        EstimateCostResponse {
            operation: req.operation,
            breakdown,
            scenarios,
            estimated_at: now,
            docs_url: "/docs/cost-estimation".to_owned(),
        }
    }

    /// The breakdown of `bytes` instruction bytes, `writes` and `reads` ledger
    /// keys and `rents` TTL extensions.
    fn price(&self, bytes: u64, writes: u64, reads: u64, rents: u64, notes: Vec<String>) -> (r:
        CostBreakdown)
        requires
            priced(self.config, bytes as int, writes as int, reads as int, rents as int).total()
                <= u64::MAX,
        ensures
            r.shows(
                priced(self.config, bytes as int, writes as int, reads as int, rents as int),
                text::texts(notes@),
            ),
    {
        let c = &self.config;
        let ghost p = priced(*c, bytes as int, writes as int, reads as int, rents as int);
        proof {
            assert(p.instructions >= 0 && p.write_entries >= 0 && p.read_entries >= 0 && p.rent >= 0)
                by (nonlinear_arith)
                requires
                    p == priced(*c, bytes as int, writes as int, reads as int, rents as int),
            ;
        }
        let instr: u64 = c.byte_fee_stroops * bytes;
        let write: u64 = c.write_entry_fee_stroops * writes;
        let read: u64 = c.read_entry_fee_stroops * reads;
        let rent: u64 = if rents == 0 {
            proof {
                assert(extension_rent(*c) * 0 == 0);
            }
            0
        } else {
            proof {
                assert(extension_rent(*c) >= 0) by (nonlinear_arith);
                assert(extension_rent(*c) <= extension_rent(*c) * rents) by (nonlinear_arith)
                    requires
                        rents >= 1,
                        extension_rent(*c) >= 0,
                ;
            }
            c.rent_fee_per_ledger_stroops * c.default_ttl_extension_ledgers * rents
        };
        CostBreakdown::new(c.base_fee_stroops, instr, write, read, rent, notes)
    }

    /// What the request costs, and why.
    pub fn compute_breakdown(&self, req: &EstimateCostRequest) -> (r: CostBreakdown)
        requires
            affordable(self.schedule(), *req),
        ensures
            r.shows(charges(self.schedule(), *req), notes(self.schedule(), *req)),
    {
        let ledgers: u64 = self.config.default_ttl_extension_ledgers;
        let amount: u64 = match req.amount_stroops {
            Some(x) => x,
            None => 0,
        };
        match req.operation {
            // Writes the vault, beneficiary and TTL entries; reads the owner.
            OperationType::CreateVault => self.price(
                500,
                3,
                1,
                1,
                list2(
                    "Writes 3 ledger entries (vault, beneficiary, TTL counter)".to_owned(),
                    numbered("Rent for ", ledgers, " ledgers of initial TTL"),
                ),
            ),
            OperationType::CheckIn => self.price(
                200,
                1,
                1,
                1,
                list2(
                    "Updates TTL ledger entry".to_owned(),
                    numbered("Extends TTL by ", ledgers, " ledgers"),
                ),
            ),
            // Writes the vault balance and the event log.
            OperationType::Deposit => {
                let first = "Updates vault balance and appends deposit event".to_owned();
                let notes = if amount > 0 {
                    list2(first, numbered("Depositing ", amount, " stroops"))
                } else {
                    list1(first)
                };
                self.price(300, 2, 1, 0, notes)
            },
            // Reads the balance and the authorisation.
            OperationType::Withdraw => {
                let first = "Verifies balance, writes updated balance + withdrawal log".to_owned();
                let notes = if amount > 0 {
                    list2(first, numbered("Withdrawing ", amount, " stroops"))
                } else {
                    list1(first)
                };
                self.price(400, 2, 2, 0, notes)
            },
            // Reads vault and beneficiary, writes the release record and clears the TTL.
            OperationType::TriggerRelease => self.price(
                800,
                3,
                2,
                0,
                list2(
                    "Verifies TTL expiry, transfers balance to beneficiary".to_owned(),
                    "Writes release record and clears vault state".to_owned(),
                ),
            ),
            OperationType::UpdateBeneficiary => self.price(
                250,
                2,
                1,
                0,
                list1("Updates beneficiary address and writes audit entry".to_owned()),
            ),
            OperationType::BulkCheckIn => {
                let asked: u64 = match req.bulk_count {
                    Some(x) => x,
                    None => 1,
                };
                let count: u64 = if asked == 0 {
                    1
                } else {
                    asked
                };
                self.bulk_price(count)
            },
            OperationType::Custom => {
                let payload: u64 = match req.payload_bytes {
                    Some(x) => x,
                    None => 256,
                };
                self.price(
                    payload,
                    1,
                    1,
                    0,
                    list1(numbered("Custom operation with ", payload, " byte payload")),
                )
            },
        }
    }

    /// The breakdown of a check-in for `count` vaults.
    fn bulk_price(&self, count: u64) -> (r: CostBreakdown)
        requires
            count >= 1,
            priced(self.config, 200 * count, count as int, count as int, count as int).total()
                <= u64::MAX,
        ensures
            r.shows(
                priced(self.config, 200 * count, count as int, count as int, count as int),
                seq![
                    "Bulk check-in for "@ + text::decimal(count as nat) + " vaults"@,
                    "Each vault incurs individual write + rent cost"@,
                ],
            ),
    {
        let c = &self.config;
        let ghost p = priced(*c, 200 * count, count as int, count as int, count as int);
        proof {
            assert(extension_rent(*c) >= 0) by (nonlinear_arith);
            let unit = extension_rent(*c);
            assert(p.write_entries >= 0 && p.read_entries >= 0 && p.instructions >= 0 && p.rent >= 0
                && c.byte_fee_stroops * 200 <= p.instructions && c.byte_fee_stroops * 200 * count
                == p.instructions && unit <= p.rent) by (nonlinear_arith)
                requires
                    count >= 1,
                    unit >= 0,
                    p.write_entries == c.write_entry_fee_stroops * count,
                    p.read_entries == c.read_entry_fee_stroops * count,
                    p.instructions == c.byte_fee_stroops * (200 * count),
                    p.rent == unit * count,
            ;
        }
        let write: u64 = c.write_entry_fee_stroops * count;
        let read: u64 = c.read_entry_fee_stroops * count;
        let instr: u64 = c.byte_fee_stroops * 200 * count;
        let rent: u64 = c.rent_fee_per_ledger_stroops * c.default_ttl_extension_ledgers * count;
        CostBreakdown::new(
            c.base_fee_stroops,
            instr,
            write,
            read,
            rent,
            list2(
                numbered("Bulk check-in for ", count, " vaults"),
                "Each vault incurs individual write + rent cost".to_owned(),
            ),
        )
    }

    /// Whether a price of `bytes` instruction bytes, `writes` and `reads` ledger
    /// keys and `rents` TTL extensions can be held in 64 bits.
    fn holds(&self, bytes: u128, writes: u128, reads: u128, rents: u128) -> (r: bool)
        ensures
            r == (priced(
                self.config,
                bytes as int,
                writes as int,
                reads as int,
                rents as int,
            ).total() <= u64::MAX),
    {
        let c = &self.config;
        let ghost p = priced(*c, bytes as int, writes as int, reads as int, rents as int);
        let ghost unit = extension_rent(*c);
        proof {
            assert(unit >= 0) by (nonlinear_arith)
                requires
                    unit == c.rent_fee_per_ledger_stroops * c.default_ttl_extension_ledgers,
            ;
            assert(p.instructions >= 0 && p.write_entries >= 0 && p.read_entries >= 0 && p.rent
                >= 0 && (rents >= 1 ==> unit <= p.rent) && (rents == 0 ==> p.rent == 0))
                by (nonlinear_arith)
                requires
                    unit >= 0,
                    p.instructions == c.byte_fee_stroops * bytes,
                    p.write_entries == c.write_entry_fee_stroops * writes,
                    p.read_entries == c.read_entry_fee_stroops * reads,
                    p.rent == unit * rents,
            ;
        }
        let rent: Option<u64> = if rents == 0 {
            Some(0)
        } else {
            match product(c.rent_fee_per_ledger_stroops, c.default_ttl_extension_ledgers as u128) {
                Some(each) => product(each, rents),
                None => None,
            }
        };
        match (
            product(c.byte_fee_stroops, bytes),
            product(c.write_entry_fee_stroops, writes),
            product(c.read_entry_fee_stroops, reads),
            rent,
        ) {
            (Some(instr), Some(write), Some(read), Some(rent)) => c.base_fee_stroops as u128
                + instr as u128 + write as u128 + read as u128 + rent as u128 <= u64::MAX as u128,
            _ => false,
        }
    }

    /// Whether the price of the request can be held in 64 bits.
    fn affords(&self, req: &EstimateCostRequest) -> (r: bool)
        ensures
            r == affordable(self.config, *req),
    {
        match req.operation {
            OperationType::CreateVault => self.holds(500, 3, 1, 1),
            OperationType::CheckIn => self.holds(200, 1, 1, 1),
            OperationType::Deposit => self.holds(300, 2, 1, 0),
            OperationType::Withdraw => self.holds(400, 2, 2, 0),
            OperationType::TriggerRelease => self.holds(800, 3, 2, 0),
            OperationType::UpdateBeneficiary => self.holds(250, 2, 1, 0),
            OperationType::BulkCheckIn => {
                let count: u128 = match req.bulk_count {
                    Some(x) => if x == 0 {
                        1
                    } else {
                        x as u128
                    },
                    None => 1,
                };
                self.holds(200 * count, count, count, count)
            },
            OperationType::Custom => {
                let payload: u128 = match req.payload_bytes {
                    Some(x) => x as u128,
                    None => 256,
                };
                self.holds(payload, 1, 1, 0)
            },
        }
    }

    /// Whether the prices of the request and of the scenarios that it asks for
    /// can be held in 64 bits, so that it can be estimated.
    pub fn can_estimate(&self, req: &EstimateCostRequest) -> (r: bool)
        ensures
            r == (affordable(self.schedule(), *req) && all_affordable(
                self.schedule(),
                requested_plans(*req),
            )),
    {
        let wanted: bool = match req.include_scenarios {
            Some(b) => b,
            None => false,
        };
        let ghost plans = requested_plans(*req);
        let scenarios: bool = if !wanted {
            true
        } else {
            match req.operation {
                OperationType::Deposit => {
                    let small = Self::request(OperationType::Deposit, Some(1_000_000_000), None);
                    let large = Self::request(OperationType::Deposit, Some(100_000_000_000), None);
                    assert(plans[0].req == small && plans[1].req == large);
                    self.affords(&small) && self.affords(&large)
                },
                OperationType::BulkCheckIn => {
                    let ten = Self::request(OperationType::BulkCheckIn, None, Some(10));
                    let hundred = Self::request(OperationType::BulkCheckIn, None, Some(100));
                    assert(plans[0].req == ten && plans[1].req == hundred);
                    self.affords(&ten) && self.affords(&hundred)
                },
                _ => true,
            }
        };
        self.affords(req) && scenarios
    }

    /// The scenarios offered for an operation.
    pub fn build_scenarios(&self, operation: &OperationType) -> (r: Vec<CostScenario>)
        requires
            all_affordable(self.schedule(), scenario_plans(*operation)),
        ensures
            fulfils_all(self.schedule(), scenario_plans(*operation), r@),
    {
        let mut out: Vec<CostScenario> = Vec::new();
        let ghost plans = scenario_plans(*operation);
        match operation {
            OperationType::Deposit => {
                assert(affordable(self.schedule(), plans[0].req));
                assert(affordable(self.schedule(), plans[1].req));
                out.push(
                    self.scenario(
                        "small_deposit",
                        "Deposit 100 XLM",
                        &Self::request(OperationType::Deposit, Some(1_000_000_000), None),
                    ),
                );
                out.push(
                    self.scenario(
                        "large_deposit",
                        "Deposit 10,000 XLM",
                        &Self::request(OperationType::Deposit, Some(100_000_000_000), None),
                    ),
                );
            },
            OperationType::BulkCheckIn => {
                assert(affordable(self.schedule(), plans[0].req));
                assert(affordable(self.schedule(), plans[1].req));
                out.push(
                    self.scenario(
                        "bulk_10",
                        "Bulk check-in for 10 vaults",
                        &Self::request(OperationType::BulkCheckIn, None, Some(10)),
                    ),
                );
                out.push(
                    self.scenario(
                        "bulk_100",
                        "Bulk check-in for 100 vaults",
                        &Self::request(OperationType::BulkCheckIn, None, Some(100)),
                    ),
                );
            },
            _ => {},
        }
        out
    }

    /// A request for `operation` with nothing but the given parameters.
    fn request(operation: OperationType, amount: Option<u64>, bulk: Option<u64>) -> (r:
        EstimateCostRequest)
        ensures
            r == plain_request(operation, amount, bulk),
    {
        EstimateCostRequest {
            operation,
            vault_id: None,
            amount_stroops: amount,
            bulk_count: bulk,
            payload_bytes: None,
            include_scenarios: None,
        }
    }

    /// One scenario: the request under a name, with its breakdown.
    pub fn scenario(&self, name: &str, description: &str, req: &EstimateCostRequest) -> (r:
        CostScenario)
        requires
            affordable(self.schedule(), *req),
        ensures
            fulfils(
                self.schedule(),
                (ScenarioPlan { name: name@, description: description@, req: *req }),
                r,
            ),
    {
        CostScenario {
            name: name.to_owned(),
            description: description.to_owned(),
            parameters: ScenarioParameters {
                operation: req.operation.name(),
                amount_stroops: req.amount_stroops,
                bulk_count: req.bulk_count,
            },
            breakdown: self.compute_breakdown(req),
        }
    }
}

/// A check-in for `n` vaults costs the base fee once and everything else `n`
/// times what it costs for one vault.
pub proof fn law_bulk_cost_is_linear(c: FeeConfig, n: u64)
    requires
        n >= 1,
    ensures
        charges(c, plain_request(OperationType::BulkCheckIn, None, Some(n))).total()
            - c.base_fee_stroops == n * (charges(
            c,
            plain_request(OperationType::BulkCheckIn, None, Some(1)),
        ).total() - c.base_fee_stroops),
{
    let one = plain_request(OperationType::BulkCheckIn, None, Some(1u64));
    let many = plain_request(OperationType::BulkCheckIn, None, Some(n));
    let b = c.byte_fee_stroops as int;
    let w = c.write_entry_fee_stroops as int;
    let r = c.read_entry_fee_stroops as int;
    let e = extension_rent(c);
    assert(bulk_vaults(many) == n);
    assert(b * (200 * n) + w * n + r * n + e * n == n * (b * (200 * 1) + w * 1 + r * 1 + e * 1))
        by (nonlinear_arith);
}

/// What is deposited or withdrawn does not change the price of the operation.
pub proof fn law_amount_is_not_priced(c: FeeConfig, a: EstimateCostRequest, b: EstimateCostRequest)
    requires
        a.operation == b.operation,
        a.operation == OperationType::Deposit || a.operation == OperationType::Withdraw,
    ensures
        charges(c, a) == charges(c, b),
{
}

/// Under the default schedule a release costs more than a check-in.
pub proof fn law_release_costs_more_than_check_in(release: EstimateCostRequest, check: EstimateCostRequest)
    requires
        release.operation == OperationType::TriggerRelease,
        check.operation == OperationType::CheckIn,
    ensures
        charges(default_fees(), release).total() > charges(default_fees(), check).total(),
{
}

/// The bill of an operation in terms of the fee schedule: so many instruction
/// bytes at the byte fee, written keys at the write fee, read keys at the read fee
/// and TTL extensions at the rent for the ledgers that one covers.
pub proof fn law_price_list(c: FeeConfig, req: EstimateCostRequest, r: CostBreakdown)
    requires
        r.shows(charges(c, req), notes(c, req)),
    ensures
        r.base_fee_stroops == c.base_fee_stroops,
        req.operation == OperationType::CreateVault ==> r.instruction_fee_stroops == 500
            * c.byte_fee_stroops && r.write_entries_fee_stroops == 3 * c.write_entry_fee_stroops
            && r.read_entries_fee_stroops == c.read_entry_fee_stroops && r.rent_fee_stroops
            == c.rent_fee_per_ledger_stroops * c.default_ttl_extension_ledgers,
        req.operation == OperationType::CheckIn ==> r.instruction_fee_stroops == 200
            * c.byte_fee_stroops && r.write_entries_fee_stroops == c.write_entry_fee_stroops
            && r.read_entries_fee_stroops == c.read_entry_fee_stroops && r.rent_fee_stroops
            == c.rent_fee_per_ledger_stroops * c.default_ttl_extension_ledgers,
        req.operation == OperationType::Deposit ==> r.instruction_fee_stroops == 300
            * c.byte_fee_stroops && r.write_entries_fee_stroops == 2 * c.write_entry_fee_stroops
            && r.read_entries_fee_stroops == c.read_entry_fee_stroops && r.rent_fee_stroops == 0,
        req.operation == OperationType::Withdraw ==> r.instruction_fee_stroops == 400
            * c.byte_fee_stroops && r.write_entries_fee_stroops == 2 * c.write_entry_fee_stroops
            && r.read_entries_fee_stroops == 2 * c.read_entry_fee_stroops && r.rent_fee_stroops
            == 0,
        req.operation == OperationType::TriggerRelease ==> r.instruction_fee_stroops == 800
            * c.byte_fee_stroops && r.write_entries_fee_stroops == 3 * c.write_entry_fee_stroops
            && r.read_entries_fee_stroops == 2 * c.read_entry_fee_stroops && r.rent_fee_stroops
            == 0,
        req.operation == OperationType::UpdateBeneficiary ==> r.instruction_fee_stroops == 250
            * c.byte_fee_stroops && r.write_entries_fee_stroops == 2 * c.write_entry_fee_stroops
            && r.read_entries_fee_stroops == c.read_entry_fee_stroops && r.rent_fee_stroops == 0,
        req.operation == OperationType::Custom && req.payload_bytes is Some
            ==> r.instruction_fee_stroops == req.payload_bytes->0 * c.byte_fee_stroops,
        req.operation == OperationType::Custom && req.payload_bytes is None
            ==> r.instruction_fee_stroops == 256 * c.byte_fee_stroops,
        req.operation == OperationType::Custom ==> r.write_entries_fee_stroops
            == c.write_entry_fee_stroops && r.read_entries_fee_stroops == c.read_entry_fee_stroops
            && r.rent_fee_stroops == 0,
        r.total_stroops == r.base_fee_stroops + r.instruction_fee_stroops
            + r.write_entries_fee_stroops + r.read_entries_fee_stroops + r.rent_fee_stroops,
        r.total_xlm.stroops < 10_000_000,
        r.total_xlm.whole * 10_000_000 + r.total_xlm.stroops == r.total_stroops,
{
    let e = c.rent_fee_per_ledger_stroops * c.default_ttl_extension_ledgers;
    assert(extension_rent(c) == e);
    assert(extension_rent(c) * 1 == e && extension_rent(c) * 0 == 0);
    if req.payload_bytes is Some {
        let p = req.payload_bytes->0;
        assert(c.byte_fee_stroops * p == p * c.byte_fee_stroops) by (nonlinear_arith);
    }
}

/// The bill of a bulk check-in: every vault is billed as one check-in would be,
/// on top of one base fee. A count of zero is billed as one vault, and so is a
/// count that is not given.
pub proof fn law_bulk_bill_adds_up(
    c: FeeConfig,
    req: EstimateCostRequest,
    r: CostBreakdown,
    one: EstimateCostRequest,
    single: CostBreakdown,
    n: int,
)
    requires
        req.operation == OperationType::BulkCheckIn,
        r.shows(charges(c, req), notes(c, req)),
        one.operation == OperationType::CheckIn,
        single.shows(charges(c, one), notes(c, one)),
        n == match req.bulk_count {
            Some(k) => if k == 0 {
                1int
            } else {
                k as int
            },
            None => 1int,
        },
    ensures
        r.base_fee_stroops == single.base_fee_stroops,
        r.instruction_fee_stroops == n * single.instruction_fee_stroops,
        r.write_entries_fee_stroops == n * single.write_entries_fee_stroops,
        r.read_entries_fee_stroops == n * single.read_entries_fee_stroops,
        r.rent_fee_stroops == n * single.rent_fee_stroops,
{
    law_price_list(c, one, single);
    let b = c.byte_fee_stroops as int;
    let w = c.write_entry_fee_stroops as int;
    let rd = c.read_entry_fee_stroops as int;
    let e = extension_rent(c);
    assert(bulk_vaults(req) == n);
    assert(b * (200 * n) == n * (200 * b) && w * n == n * w && rd * n == n * rd && e * n == n * e)
        by (nonlinear_arith);
}

/// Under the default schedule every operation costs a fixed number of stroops.
pub proof fn law_default_prices(req: EstimateCostRequest)
    ensures
        ({
            let total = charges(default_fees(), req).total();
            &&& req.operation == OperationType::CreateVault ==> total == 18_100
            &&& req.operation == OperationType::CheckIn ==> total == 10_100
            &&& req.operation == OperationType::Deposit ==> total == 8_600
            &&& req.operation == OperationType::Withdraw ==> total == 10_100
            &&& req.operation == OperationType::TriggerRelease ==> total == 16_600
            &&& req.operation == OperationType::UpdateBeneficiary ==> total == 8_100
            &&& req.operation == OperationType::Custom && req.payload_bytes is None ==> total
                == 5_660
            &&& req.operation == OperationType::BulkCheckIn && req.bulk_count is None ==> total
                == 10_100
        }),
{
}

/// A variable that holds a number of 64 bits sets a fee, and nothing else does.
pub proof fn law_setting_is_read_or_default(
    vars: Map<Seq<char>, String>,
    key: Seq<char>,
    default: u64,
)
    ensures
        !vars.contains_key(key) ==> setting(vars, key, default) == default,
        vars.contains_key(key) && text::unsigned_value(vars[key]@) is Some && text::unsigned_value(
            vars[key]@,
        )->0 <= u64::MAX ==> setting(vars, key, default) == text::unsigned_value(vars[key]@)->0,
        vars.contains_key(key) && text::unsigned_value(vars[key]@) is None ==> setting(
            vars,
            key,
            default,
        ) == default,
{
}

/// Scenarios come with a request that asks for them, for deposits and bulk
/// check-ins alone: two each, the second the larger one.
pub proof fn law_scenarios_on_request(req: EstimateCostRequest)
    ensures
        req.include_scenarios != Some(true) ==> requested_plans(req).len() == 0,
        req.operation != OperationType::Deposit && req.operation != OperationType::BulkCheckIn
            ==> requested_plans(req).len() == 0,
        req.include_scenarios == Some(true) && req.operation == OperationType::Deposit ==> {
            &&& requested_plans(req).len() == 2
            &&& requested_plans(req)[0].name == "small_deposit"@
            &&& requested_plans(req)[0].description == "Deposit 100 XLM"@
            &&& requested_plans(req)[1].description == "Deposit 10,000 XLM"@
            &&& requested_plans(req)[0].req.operation == OperationType::Deposit
            &&& requested_plans(req)[0].req.amount_stroops == Some(1_000_000_000u64)
            &&& requested_plans(req)[1].name == "large_deposit"@
            &&& requested_plans(req)[1].req.operation == OperationType::Deposit
            &&& requested_plans(req)[1].req.amount_stroops == Some(100_000_000_000u64)
        },
        req.include_scenarios == Some(true) && req.operation == OperationType::BulkCheckIn ==> {
            &&& requested_plans(req).len() == 2
            &&& requested_plans(req)[0].name == "bulk_10"@
            &&& requested_plans(req)[0].description == "Bulk check-in for 10 vaults"@
            &&& requested_plans(req)[1].description == "Bulk check-in for 100 vaults"@
            &&& requested_plans(req)[0].req.operation == OperationType::BulkCheckIn
            &&& requested_plans(req)[0].req.bulk_count == Some(10u64)
            &&& requested_plans(req)[1].name == "bulk_100"@
            &&& requested_plans(req)[1].req.operation == OperationType::BulkCheckIn
            &&& requested_plans(req)[1].req.bulk_count == Some(100u64)
        },
{
}

/// An estimate answers what was asked: the operation, its bill under the schedule,
/// and the scenarios that were asked for, each with the bill of its own request.
pub proof fn law_estimate_answers_the_request(
    e: CostEstimator,
    req: EstimateCostRequest,
    r: EstimateCostResponse,
    i: int,
)
    requires
        e.answers(req, r),
    ensures
        r.operation == req.operation,
        r.breakdown.base_fee_stroops == e.schedule().base_fee_stroops,
        r.breakdown.total_stroops == charges(e.schedule(), req).total(),
        req.include_scenarios != Some(true) ==> r.scenarios@.len() == 0,
        req.include_scenarios == Some(true) && (req.operation == OperationType::Deposit
            || req.operation == OperationType::BulkCheckIn) ==> r.scenarios@.len() == 2,
        req.operation != OperationType::Deposit && req.operation != OperationType::BulkCheckIn
            ==> r.scenarios@.len() == 0,
        0 <= i < r.scenarios@.len() ==> {
            let plan = requested_plans(req)[i];
            &&& r.scenarios@[i].name@ == plan.name
            &&& r.scenarios@[i].description@ == plan.description
            &&& r.scenarios@[i].breakdown.total_stroops == charges(e.schedule(), plan.req).total()
            &&& r.scenarios@[i].parameters.amount_stroops == plan.req.amount_stroops
            &&& r.scenarios@[i].parameters.bulk_count == plan.req.bulk_count
        },
        r.docs_url@ == "/docs/cost-estimation"@,
{
    if 0 <= i < r.scenarios@.len() {
        assert(fulfils(e.schedule(), requested_plans(req)[i], r.scenarios@[i]));
    }
}

/// A request can be billed exactly if its bill can be held in 64 bits.
pub proof fn law_billable_means_it_can_be_held(c: FeeConfig, req: EstimateCostRequest)
    ensures
        affordable(c, req) <==> charges(c, req).base + charges(c, req).instructions + charges(
            c,
            req,
        ).write_entries + charges(c, req).read_entries + charges(c, req).rent <= u64::MAX,
{
}

/// The notes name the number of vaults, ledgers, bytes or stroops at hand.
pub proof fn law_notes_tell_the_figures(c: FeeConfig, req: EstimateCostRequest)
    ensures
        req.operation == OperationType::CreateVault ==> notes(c, req)[1] == "Rent for "@
            + text::decimal(c.default_ttl_extension_ledgers as nat) + " ledgers of initial TTL"@,
        req.operation == OperationType::CheckIn ==> notes(c, req)[1] == "Extends TTL by "@
            + text::decimal(c.default_ttl_extension_ledgers as nat) + " ledgers"@,
        req.operation == OperationType::Deposit && req.amount_stroops is Some
            && req.amount_stroops->0 > 0 ==> notes(c, req).len() == 2 && notes(c, req)[1]
            == "Depositing "@ + text::decimal(req.amount_stroops->0 as nat) + " stroops"@,
        req.operation == OperationType::Deposit && req.amount_stroops is None ==> notes(
            c,
            req,
        ).len() == 1,
        req.operation == OperationType::Withdraw && req.amount_stroops is Some
            && req.amount_stroops->0 > 0 ==> notes(c, req).len() == 2 && notes(c, req)[1]
            == "Withdrawing "@ + text::decimal(req.amount_stroops->0 as nat) + " stroops"@,
        req.operation == OperationType::BulkCheckIn && req.bulk_count is Some && req.bulk_count->0
            > 0 ==> notes(c, req)[0] == "Bulk check-in for "@ + text::decimal(
            req.bulk_count->0 as nat,
        ) + " vaults"@,
        req.operation == OperationType::Custom && req.payload_bytes is Some ==> notes(c, req)[0]
            == "Custom operation with "@ + text::decimal(req.payload_bytes->0 as nat)
            + " byte payload"@,
        req.operation == OperationType::CreateVault ==> notes(c, req)[0]
            == "Writes 3 ledger entries (vault, beneficiary, TTL counter)"@,
        req.operation == OperationType::CheckIn ==> notes(c, req)[0]
            == "Updates TTL ledger entry"@,
        req.operation == OperationType::Deposit ==> notes(c, req)[0]
            == "Updates vault balance and appends deposit event"@,
        req.operation == OperationType::Withdraw ==> notes(c, req)[0]
            == "Verifies balance, writes updated balance + withdrawal log"@,
        req.operation == OperationType::TriggerRelease ==> notes(c, req) == seq![
            "Verifies TTL expiry, transfers balance to beneficiary"@,
            "Writes release record and clears vault state"@,
        ],
        req.operation == OperationType::UpdateBeneficiary ==> notes(c, req) == seq![
            "Updates beneficiary address and writes audit entry"@,
        ],
        req.operation == OperationType::BulkCheckIn ==> notes(c, req)[1]
            == "Each vault incurs individual write + rent cost"@,
{
}

/// Several requests can be billed exactly if each of them can.
pub proof fn law_billable_one_by_one(c: FeeConfig, plans: Seq<ScenarioPlan>, plan: ScenarioPlan)
    ensures
        all_affordable(c, Seq::<ScenarioPlan>::empty()),
        all_affordable(c, plans.push(plan)) <==> all_affordable(c, plans) && affordable(
            c,
            plan.req,
        ),
{
    let more = plans.push(plan);
    if all_affordable(c, more) {
        assert forall|i: int| 0 <= i < plans.len() implies affordable(c, #[trigger] plans[i].req) by {
            assert(more[i] == plans[i]);
            assert(affordable(c, more[i].req));
        }
        assert(more[plans.len() as int].req == plan.req);
        assert(affordable(c, more[plans.len() as int].req));
    }
}

} // verus!
