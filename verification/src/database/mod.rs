use crate::crypto::floor_div;
use crate::exchanges::mandala::utils::OrderStatus;
use vstd::prelude::*;
use vstd::string::StringExecFns;

verus! {

/// Where a transaction stands between the buy order and the finished sale.
#[derive(Debug, Clone, Copy, PartialEq, Eq, Structural)]
pub enum TransactionStage {
    BuyTransactionOpen,
    BuyTransactionPartiallyFilled,
    BuyTransactionFilled,
    Hodl,
    SellTransactionOpen,
    SellTransactionPartiallyFilled,
    SellTransactionFilled,
    Finished,
}

impl TransactionStage {
    /// The stage's place on the path from buy to finished.
    pub open spec fn rank(self) -> nat {
        match self {
            TransactionStage::BuyTransactionOpen => 0,
            TransactionStage::BuyTransactionPartiallyFilled => 1,
            TransactionStage::BuyTransactionFilled => 2,
            TransactionStage::Hodl => 3,
            TransactionStage::SellTransactionOpen => 4,
            TransactionStage::SellTransactionPartiallyFilled => 5,
            TransactionStage::SellTransactionFilled => 6,
            TransactionStage::Finished => 7,
        }
    }

    /// Inventory is still committed in this stage.
    pub open spec fn is_open(self) -> bool {
        self != TransactionStage::Finished && self != TransactionStage::SellTransactionFilled
    }

    /// The sell order has been placed.
    pub open spec fn selling(self) -> bool {
        self.rank() >= TransactionStage::SellTransactionOpen.rank()
    }

    pub open spec fn open_stages() -> Seq<TransactionStage> {
        seq![
            TransactionStage::BuyTransactionOpen,
            TransactionStage::BuyTransactionPartiallyFilled,
            TransactionStage::BuyTransactionFilled,
            TransactionStage::Hodl,
            TransactionStage::SellTransactionOpen,
            TransactionStage::SellTransactionPartiallyFilled,
        ]
    }

    /// The stages in which inventory is still committed.
    pub fn open() -> (stages: Vec<TransactionStage>)
        ensures
            stages@ == Self::open_stages(),
    {
        let mut stages = Vec::new();
        stages.push(TransactionStage::BuyTransactionOpen);
        stages.push(TransactionStage::BuyTransactionPartiallyFilled);
        stages.push(TransactionStage::BuyTransactionFilled);
        stages.push(TransactionStage::Hodl);
        stages.push(TransactionStage::SellTransactionOpen);
        stages.push(TransactionStage::SellTransactionPartiallyFilled);
        assert(stages@ =~= Self::open_stages());
        stages
    }

    /// `open` lists every stage but the two that end the sale.
    pub proof fn lemma_open_stages(stage: TransactionStage)
        ensures
            Self::open_stages().contains(stage) <==> stage.is_open(),
    {
        let stages = Self::open_stages();
        if stage.is_open() {
            assert(stages[stage.rank() as int] == stage);
        }
    }

    /// The name under which the stage is stored.
    pub open spec fn label(self) -> Seq<char> {
        match self {
            TransactionStage::BuyTransactionOpen => "BuyTransactionOpen"@,
            TransactionStage::BuyTransactionPartiallyFilled => "BuyTransactionPartiallyFilled"@,
            TransactionStage::BuyTransactionFilled => "BuyTransactionFilled"@,
            TransactionStage::Hodl => "Hodl"@,
            TransactionStage::SellTransactionOpen => "SellTransactionOpen"@,
            TransactionStage::SellTransactionPartiallyFilled => "SellTransactionPartiallyFilled"@,
            TransactionStage::SellTransactionFilled => "SellTransactionFilled"@,
            TransactionStage::Finished => "Finished"@,
        }
    }

    /// No two stages share a name.
    pub proof fn lemma_label_injective(a: TransactionStage, b: TransactionStage)
        requires
            a.label() == b.label(),
        ensures
            a == b,
    {
        reveal_strlit("BuyTransactionOpen");
        reveal_strlit("BuyTransactionPartiallyFilled");
        reveal_strlit("BuyTransactionFilled");
        reveal_strlit("Hodl");
        reveal_strlit("SellTransactionOpen");
        reveal_strlit("SellTransactionPartiallyFilled");
        reveal_strlit("SellTransactionFilled");
        reveal_strlit("Finished");
        assert("BuyTransactionOpen"@.len() == 18);
        assert("BuyTransactionPartiallyFilled"@.len() == 29);
        assert("BuyTransactionFilled"@.len() == 20);
        assert("Hodl"@.len() == 4);
        assert("SellTransactionOpen"@.len() == 19);
        assert("SellTransactionPartiallyFilled"@.len() == 30);
        assert("SellTransactionFilled"@.len() == 21);
        assert("Finished"@.len() == 8);
    }

    pub fn to_string(&self) -> (name: String)
        ensures
            name@ == self.label(),
    {
        match self {
            TransactionStage::BuyTransactionOpen => String::from_str("BuyTransactionOpen"),
            TransactionStage::BuyTransactionPartiallyFilled => String::from_str(
                "BuyTransactionPartiallyFilled",
            ),
            TransactionStage::BuyTransactionFilled => String::from_str("BuyTransactionFilled"),
            TransactionStage::Hodl => String::from_str("Hodl"),
            TransactionStage::SellTransactionOpen => String::from_str("SellTransactionOpen"),
            TransactionStage::SellTransactionPartiallyFilled => String::from_str(
                "SellTransactionPartiallyFilled",
            ),
            TransactionStage::SellTransactionFilled => String::from_str("SellTransactionFilled"),
            TransactionStage::Finished => String::from_str("Finished"),
        }
    }

    /// The stage stored under `name`, if there is one.
    pub fn parse(name: &String) -> (stage: Option<TransactionStage>)
        ensures
            match stage {
                Some(stage) => stage.label() == name@,
                None => forall|other: TransactionStage| other.label() != name@,
            },
    {
        let stages = [
            TransactionStage::BuyTransactionOpen,
            TransactionStage::BuyTransactionPartiallyFilled,
            TransactionStage::BuyTransactionFilled,
            TransactionStage::Hodl,
            TransactionStage::SellTransactionOpen,
            TransactionStage::SellTransactionPartiallyFilled,
            TransactionStage::SellTransactionFilled,
            TransactionStage::Finished,
        ];
        let mut i: usize = 0;
        while i < 8
            invariant
                i <= 8,
                stages@.len() == 8,
                forall|k: int| 0 <= k < 8 ==> (#[trigger] stages@[k]).rank() == k,
                forall|k: int| 0 <= k < i ==> (#[trigger] stages@[k]).label() != name@,
            decreases 8 - i,
        {
            let candidate = stages[i].to_string();
            if candidate == *name {
                return Some(stages[i]);
            }
            i += 1;
        }
        assert forall|other: TransactionStage| other.label() != name@ by {
            assert(stages@[other.rank() as int].rank() == other.rank());
            assert(stages@[other.rank() as int] == other);
        }
        None
    }

    /// The stage after the venue reported `status` for the order that is
    /// open in this stage.
    pub open spec fn after_poll(self, status: OrderStatus) -> TransactionStage {
        match (self, status) {
            (TransactionStage::BuyTransactionOpen, OrderStatus::PartiallyFilled)
            | (
                TransactionStage::BuyTransactionPartiallyFilled,
                OrderStatus::PartiallyFilled,
            ) => TransactionStage::BuyTransactionPartiallyFilled,
            (TransactionStage::BuyTransactionOpen, OrderStatus::Filled)
            | (TransactionStage::BuyTransactionPartiallyFilled, OrderStatus::Filled) =>
                TransactionStage::Hodl,
            (TransactionStage::SellTransactionOpen, OrderStatus::PartiallyFilled)
            | (
                TransactionStage::SellTransactionPartiallyFilled,
                OrderStatus::PartiallyFilled,
            ) => TransactionStage::SellTransactionPartiallyFilled,
            (TransactionStage::SellTransactionOpen, OrderStatus::Filled)
            | (TransactionStage::SellTransactionPartiallyFilled, OrderStatus::Filled) =>
                TransactionStage::Finished,
            _ => self,
        }
    }

    /// The poll fills the buy order: the transaction enters `Hodl`.
    pub open spec fn buy_fills(self, status: OrderStatus) -> bool {
        &&& status == OrderStatus::Filled
        &&& self == TransactionStage::BuyTransactionOpen || self
            == TransactionStage::BuyTransactionPartiallyFilled
    }

    /// Advances the stage on a status poll. `Finished` is final and has no
    /// order left to poll.
    pub fn advance(&self, status: OrderStatus) -> (next: TransactionStage)
        requires
            *self != TransactionStage::Finished,
        ensures
            next == self.after_poll(status),
    {
        match (self, status) {
            (TransactionStage::BuyTransactionOpen, OrderStatus::PartiallyFilled)
            | (
                TransactionStage::BuyTransactionPartiallyFilled,
                OrderStatus::PartiallyFilled,
            ) => TransactionStage::BuyTransactionPartiallyFilled,
            (TransactionStage::BuyTransactionOpen, OrderStatus::Filled)
            | (TransactionStage::BuyTransactionPartiallyFilled, OrderStatus::Filled) =>
                TransactionStage::Hodl,
            (TransactionStage::SellTransactionOpen, OrderStatus::PartiallyFilled)
            | (
                TransactionStage::SellTransactionPartiallyFilled,
                OrderStatus::PartiallyFilled,
            ) => TransactionStage::SellTransactionPartiallyFilled,
            (TransactionStage::SellTransactionOpen, OrderStatus::Filled)
            | (TransactionStage::SellTransactionPartiallyFilled, OrderStatus::Filled) =>
                TransactionStage::Finished,
            _ => *self,
        }
    }

    /// A status poll never moves a transaction back.
    pub proof fn lemma_poll_is_monotone(stage: TransactionStage, status: OrderStatus)
        ensures
            stage.rank() <= stage.after_poll(status).rank(),
    {
    }
}

/// The text that an optional string holds.
pub open spec fn text(value: Option<String>) -> Option<Seq<char>> {
    match value {
        Some(value) => Some(value@),
        None => None,
    }
}

/// What is left of a filled quantity once `keep_percent` per cent of it is
/// kept and the rest reserved for the venue's commission, rounded down.
pub open spec fn kept(executed: int, keep_percent: int) -> int {
    (executed * keep_percent) / 100
}

/// A persisted transaction: one buy, and later the sale of what it bought.
#[derive(Debug)]
pub struct Transaction {
    pub id: String,
    pub exchange_name: String,
    pub buy_exchange_id: Option<String>,
    pub sell_exchange_id: Option<String>,
    pub amount: i64,
    pub symbol: String,
    pub price: i64,
    pub stage: TransactionStage,
    pub created_at: Option<i64>,
    pub updated_at: Option<i64>,
}

pub ghost struct TransactionView {
    pub id: Seq<char>,
    pub exchange_name: Seq<char>,
    pub buy_exchange_id: Option<Seq<char>>,
    pub sell_exchange_id: Option<Seq<char>>,
    pub amount: i64,
    pub symbol: Seq<char>,
    pub price: i64,
    pub stage: TransactionStage,
    pub created_at: Option<i64>,
    pub updated_at: Option<i64>,
}

impl View for Transaction {
    type V = TransactionView;

    open spec fn view(&self) -> TransactionView {
        TransactionView {
            id: self.id@,
            exchange_name: self.exchange_name@,
            buy_exchange_id: text(self.buy_exchange_id),
            sell_exchange_id: text(self.sell_exchange_id),
            amount: self.amount,
            symbol: self.symbol@,
            price: self.price,
            stage: self.stage,
            created_at: self.created_at,
            updated_at: self.updated_at,
        }
    }
}

/// The columns that a stage change rewrites. An absent sell id or time
/// leaves the stored one as it is.
#[derive(Debug)]
pub struct UpdateTransactionStageForm {
    pub stage: TransactionStage,
    pub sell_exchange_id: Option<String>,
    pub updated_at: Option<i64>,
    pub amount: i64,
}

pub ghost struct UpdateTransactionStageFormView {
    pub stage: TransactionStage,
    pub sell_exchange_id: Option<Seq<char>>,
    pub updated_at: Option<i64>,
    pub amount: i64,
}

impl View for UpdateTransactionStageForm {
    type V = UpdateTransactionStageFormView;

    open spec fn view(&self) -> UpdateTransactionStageFormView {
        UpdateTransactionStageFormView {
            stage: self.stage,
            sell_exchange_id: text(self.sell_exchange_id),
            updated_at: self.updated_at,
            amount: self.amount,
        }
    }
}

/// Both sides of a transaction whose sell order the venue has accepted.
#[derive(Debug)]
pub struct FinishedTransaction {
    pub id: String,
    pub transaction_id: String,
    pub amount_bought: i64,
    pub buy_price: i64,
    pub amount_sold: i64,
    pub sell_price: i64,
    pub created_at: Option<i64>,
    pub updated_at: Option<i64>,
}

pub ghost struct FinishedTransactionView {
    pub id: Seq<char>,
    pub transaction_id: Seq<char>,
    pub amount_bought: i64,
    pub buy_price: i64,
    pub amount_sold: i64,
    pub sell_price: i64,
    pub created_at: Option<i64>,
    pub updated_at: Option<i64>,
}

impl View for FinishedTransaction {
    type V = FinishedTransactionView;

    open spec fn view(&self) -> FinishedTransactionView {
        FinishedTransactionView {
            id: self.id@,
            transaction_id: self.transaction_id@,
            amount_bought: self.amount_bought,
            buy_price: self.buy_price,
            amount_sold: self.amount_sold,
            sell_price: self.sell_price,
            created_at: self.created_at,
            updated_at: self.updated_at,
        }
    }
}

impl TransactionView {
    /// The venue's buy id is always there; its sell id is there from
    /// `SellTransactionOpen` on, and not before.
    pub open spec fn wf(self) -> bool {
        &&& self.buy_exchange_id.is_some()
        &&& self.sell_exchange_id.is_some() <==> self.stage.selling()
    }

    /// The row after the store has written `form` over it.
    pub open spec fn updated(self, form: UpdateTransactionStageFormView) -> TransactionView {
        TransactionView {
            stage: form.stage,
            sell_exchange_id: if form.sell_exchange_id.is_some() {
                form.sell_exchange_id
            } else {
                self.sell_exchange_id
            },
            updated_at: if form.updated_at.is_some() {
                form.updated_at
            } else {
                self.updated_at
            },
            amount: form.amount,
            ..self
        }
    }

    /// The change that a status poll asks for.
    pub open spec fn polled(
        self,
        status: OrderStatus,
        executed_quantity: i64,
        keep_percent: u8,
        now: i64,
    ) -> UpdateTransactionStageFormView {
        UpdateTransactionStageFormView {
            stage: self.stage.after_poll(status),
            sell_exchange_id: None,
            updated_at: Some(now),
            amount: if self.stage.buy_fills(status) {
                kept(executed_quantity as int, keep_percent as int) as i64
            } else {
                self.amount
            },
        }
    }

    /// The change that an accepted sell order asks for.
    pub open spec fn sale_form(self, sell_id: Seq<char>, now: i64) -> UpdateTransactionStageFormView {
        UpdateTransactionStageFormView {
            stage: TransactionStage::SellTransactionOpen,
            sell_exchange_id: Some(sell_id),
            updated_at: Some(now),
            amount: self.amount,
        }
    }

    /// The record of both sides of the sale.
    pub open spec fn sale_record(
        self,
        id: Seq<char>,
        sell_id: Seq<char>,
        amount: i64,
        price: i64,
        now: i64,
    ) -> FinishedTransactionView {
        FinishedTransactionView {
            id,
            transaction_id: sell_id,
            amount_bought: self.amount,
            buy_price: self.price,
            amount_sold: amount,
            sell_price: price,
            created_at: Some(now),
            updated_at: Some(now),
        }
    }
}

/// Whatever is written over a row in good order leaves it in good order and
/// at the same stage or a later one: a status poll, and the sale of a row in
/// `Hodl`.
pub proof fn lemma_rows_move_forward(
    row: TransactionView,
    status: OrderStatus,
    executed_quantity: i64,
    keep_percent: u8,
    sell_id: Seq<char>,
    now: i64,
)
    requires
        row.wf(),
    ensures
        row.updated(row.polled(status, executed_quantity, keep_percent, now)).wf(),
        row.stage.rank() <= row.updated(
            row.polled(status, executed_quantity, keep_percent, now),
        ).stage.rank(),
        row.stage == TransactionStage::Hodl ==> row.updated(row.sale_form(sell_id, now)).wf(),
        row.stage == TransactionStage::Hodl ==> row.stage.rank() < row.updated(
            row.sale_form(sell_id, now),
        ).stage.rank(),
{
}

impl Transaction {
    /// The row for a buy order that the venue has just accepted as `buy_id`.
    pub fn opened(
        id: String,
        exchange_name: String,
        buy_id: String,
        amount: i64,
        symbol: String,
        price: i64,
        now: i64,
    ) -> (row: Transaction)
        ensures
            row@.wf(),
            row@ == (TransactionView {
                id: id@,
                exchange_name: exchange_name@,
                buy_exchange_id: Some(buy_id@),
                sell_exchange_id: None,
                amount,
                symbol: symbol@,
                price,
                stage: TransactionStage::BuyTransactionOpen,
                created_at: Some(now),
                updated_at: Some(now),
            }),
    {
        Transaction {
            id,
            exchange_name,
            buy_exchange_id: Some(buy_id),
            sell_exchange_id: None,
            amount,
            symbol,
            price,
            stage: TransactionStage::BuyTransactionOpen,
            created_at: Some(now),
            updated_at: Some(now),
        }
    }

    /// Writes `form` over the row, as the store does.
    pub fn apply(&mut self, form: UpdateTransactionStageForm)
        ensures
            final(self)@ == old(self)@.updated(form@),
    {
        self.stage = form.stage;
        if form.sell_exchange_id.is_some() {
            self.sell_exchange_id = form.sell_exchange_id;
        }
        if form.updated_at.is_some() {
            self.updated_at = form.updated_at;
        }
        self.amount = form.amount;
    }

    /// The change to make after the venue reported `status` and
    /// `executed_quantity` for the row's open order. When that fills the
    /// buy, the row holds `keep_percent` per cent of what was executed from
    /// then on.
    pub fn review(&self, status: OrderStatus, executed_quantity: i64, keep_percent: u8, now: i64) -> (form:
        UpdateTransactionStageForm)
        requires
            self.stage != TransactionStage::Finished,
            keep_percent <= 100,
        ensures
            form@ == self@.polled(status, executed_quantity, keep_percent, now),
            self.stage.buy_fills(status) ==> form.amount == kept(
                executed_quantity as int,
                keep_percent as int,
            ),
    {
        let stage = self.stage.advance(status);
        let fills = match (self.stage, status) {
            (TransactionStage::BuyTransactionOpen, OrderStatus::Filled)
            | (TransactionStage::BuyTransactionPartiallyFilled, OrderStatus::Filled) => true,
            _ => false,
        };
        let amount = if fills {
            haircut(executed_quantity, keep_percent)
        } else {
            self.amount
        };
        UpdateTransactionStageForm { stage, sell_exchange_id: None, updated_at: Some(now), amount }
    }

    /// The change and the record to store once the venue has accepted the
    /// sell order `sell_id` for a row in `Hodl`; nothing for a row in any
    /// other stage.
    pub fn sold(&self, finished_id: String, sell_id: String, amount: i64, price: i64, now: i64) -> (sale:
        Option<(UpdateTransactionStageForm, FinishedTransaction)>)
        ensures
            sale.is_some() <==> self.stage == TransactionStage::Hodl,
            match sale {
                Some((form, finished)) => {
                    &&& form@ == self@.sale_form(sell_id@, now)
                    &&& finished@ == self@.sale_record(finished_id@, sell_id@, amount, price, now)
                },
                None => true,
            },
    {
        match self.stage {
            TransactionStage::Hodl => {
                let form = UpdateTransactionStageForm {
                    stage: TransactionStage::SellTransactionOpen,
                    sell_exchange_id: Some(sell_id.clone()),
                    updated_at: Some(now),
                    amount: self.amount,
                };
                let finished = FinishedTransaction {
                    id: finished_id,
                    transaction_id: sell_id,
                    amount_bought: self.amount,
                    buy_price: self.price,
                    amount_sold: amount,
                    sell_price: price,
                    created_at: Some(now),
                    updated_at: Some(now),
                };
                Some((form, finished))
            },
            _ => None,
        }
    }
}

/// `keep_percent` per cent of `executed`, rounded down.
pub fn haircut(executed: i64, keep_percent: u8) -> (amount: i64)
    requires
        keep_percent <= 100,
    ensures
        amount == kept(executed as int, keep_percent as int),
{
    let wide: i128 = executed as i128;
    let percent: i128 = keep_percent as i128;
    assert(-0x8000_0000_0000_0000 * 100 <= wide * percent <= 0x8000_0000_0000_0000 * 100)
        by (nonlinear_arith)
        requires
            -0x8000_0000_0000_0000 <= wide < 0x8000_0000_0000_0000,
            0 <= percent <= 100,
    ;
    let quotient = floor_div(wide * percent, 100);
    assert(-0x8000_0000_0000_0000 <= quotient < 0x8000_0000_0000_0000) by (nonlinear_arith)
        requires
            quotient == (wide * percent) / 100,
            -0x8000_0000_0000_0000 <= wide < 0x8000_0000_0000_0000,
            0 <= percent <= 100,
    ;
    quotient as i64
}

/// The names under which `stages` are stored, in their order.
pub fn stage_names(stages: &Vec<TransactionStage>) -> (names: Vec<String>)
    ensures
        names@.len() == stages@.len(),
        forall|i: int| 0 <= i < names@.len() ==> (#[trigger] names@[i])@ == stages@[i].label(),
{
    let mut names: Vec<String> = Vec::new();
    let mut i: usize = 0;
    while i < stages.len()
        invariant
            i <= stages.len(),
            names@.len() == i,
            forall|k: int| 0 <= k < i ==> (#[trigger] names@[k])@ == stages@[k].label(),
        decreases stages.len() - i,
    {
        names.push(stages[i].to_string());
        i += 1;
    }
    names
}

} // verus!
