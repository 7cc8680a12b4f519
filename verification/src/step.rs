//! How a request is worked through: the program asks the host for one thing at a
//! time and goes on with the answer.

use vstd::prelude::*;
use crate::error::{fault_view, ErrorView, FaultView, IoFault, ProgramError};
use crate::instruction::{MovieReviewPayload, PayloadView};
use crate::invoke::{Instruction, InstructionView};
use crate::pubkey::{token_program_key, Account, Pubkey};
use crate::state::{comment_size, review_size, CounterView, MovieCommentCounter};

verus! {

/// What the program asks of the host. Accounts are named by their place in the
/// request.
#[derive(Debug, PartialEq, Eq)]
pub enum Action {
    /// The lamports that keep an account of this size free of rent.
    Rent { space: usize },
    /// Send an instruction to another program, with these accounts, and sign it
    /// for the address that the seeds derive.
    Invoke { instruction: Instruction, accounts: Vec<usize>, seeds: Vec<Vec<u8>> },
    /// The data of an account as they are now.
    Read { account: usize },
    /// Replace the data of an account.
    Write { account: usize, data: Vec<u8> },
}

/// What [`Action`] stands for.
pub enum ActionView {
    Rent { space: usize },
    Invoke { instruction: InstructionView, accounts: Seq<usize>, seeds: Seq<Seq<u8>> },
    Read { account: usize },
    Write { account: usize, data: Seq<u8> },
}

/// The bytes of each seed.
pub open spec fn seeds_view(seeds: Seq<Vec<u8>>) -> Seq<Seq<u8>> {
    seeds.map_values(|seed: Vec<u8>| seed@)
}

impl View for Action {
    type V = ActionView;

    open spec fn view(&self) -> ActionView {
        match self {
            Action::Rent { space } => ActionView::Rent { space: *space },
            Action::Invoke { instruction, accounts, seeds } => ActionView::Invoke {
                instruction: instruction@,
                accounts: accounts@,
                seeds: seeds_view(seeds@),
            },
            Action::Read { account } => ActionView::Read { account: *account },
            Action::Write { account, data } => ActionView::Write {
                account: *account,
                data: data@,
            },
        }
    }
}

/// What the host answers.
#[derive(Debug, PartialEq, Eq)]
pub enum Event {
    /// The lamports that were asked for.
    Rent(u64),
    /// The other program has done what it was asked.
    Invoked,
    /// The data that were asked for.
    Data(Vec<u8>),
    /// The data were replaced.
    Written,
    /// The host could not tell the rent, or the other program failed; the code of
    /// the error.
    Failed(u64),
}

/// What [`Event`] stands for.
pub enum EventView {
    Rent(u64),
    Invoked,
    Data(Seq<u8>),
    Written,
    Failed(u64),
}

impl View for Event {
    type V = EventView;

    open spec fn view(&self) -> EventView {
        match self {
            Event::Rent(lamports) => EventView::Rent(*lamports),
            Event::Invoked => EventView::Invoked,
            Event::Data(data) => EventView::Data(data@),
            Event::Written => EventView::Written,
            Event::Failed(code) => EventView::Failed(*code),
        }
    }
}

/// How far a request has been worked through.
#[derive(Debug, PartialEq, Eq)]
pub enum Stage {
    /// A new review: the rent of its account is asked for.
    ReviewRent { words: MovieReviewPayload, bump: u8 },
    /// A new review: its account is being created.
    ReviewCreate { words: MovieReviewPayload },
    /// A new review: the data of its account are asked for.
    ReviewRead { words: MovieReviewPayload },
    /// A new review: it is being written.
    ReviewWrite { review: Pubkey, fault: Option<IoFault> },
    /// The counter of a new review: the rent of its account is asked for.
    CounterRent { review: Pubkey },
    /// The counter of a new review: its account is being created.
    CounterCreate,
    /// The counter of a new review: the data of its account are asked for.
    CounterRead,
    /// The counter of a new review: it is being written.
    CounterWrite { fault: Option<IoFault> },
    /// A changed review: the data of its account are asked for.
    UpdateRead { words: MovieReviewPayload },
    /// A changed review: it is being written.
    UpdateWrite { fault: Option<IoFault> },
    /// A comment: the data of the counter are asked for.
    CommentCount { comment: String },
    /// A comment: the rent of its account is asked for.
    CommentRent { comment: String, counter: MovieCommentCounter },
    /// A comment: its account is being created.
    CommentCreate { comment: String, counter: MovieCommentCounter },
    /// A comment: the data of its account are asked for.
    CommentRead { comment: String, counter: MovieCommentCounter },
    /// A comment: it is being written.
    CommentWrite { counter: MovieCommentCounter, fault: Option<IoFault> },
    /// A comment: the counter has gone up and the data it is to replace are asked
    /// for.
    CountRead { counter: MovieCommentCounter },
    /// A comment: the counter is being written.
    CountWrite { fault: Option<IoFault> },
    /// The reward is being minted.
    Payment,
    /// The token mint: the rent of its account is asked for.
    MintRent { bump: u8 },
    /// The token mint: its account is being created.
    MintCreate { bump: u8 },
    /// The token mint: it is being set up.
    MintSetup,
}

/// What [`Stage`] stands for.
pub enum StageView {
    ReviewRent { words: PayloadView, bump: u8 },
    ReviewCreate { words: PayloadView },
    ReviewRead { words: PayloadView },
    ReviewWrite { review: Pubkey, fault: Option<FaultView> },
    CounterRent { review: Pubkey },
    CounterCreate,
    CounterRead,
    CounterWrite { fault: Option<FaultView> },
    UpdateRead { words: PayloadView },
    UpdateWrite { fault: Option<FaultView> },
    CommentCount { comment: Seq<char> },
    CommentRent { comment: Seq<char>, counter: CounterView },
    CommentCreate { comment: Seq<char>, counter: CounterView },
    CommentRead { comment: Seq<char>, counter: CounterView },
    CommentWrite { counter: CounterView, fault: Option<FaultView> },
    CountRead { counter: CounterView },
    CountWrite { fault: Option<FaultView> },
    Payment,
    MintRent { bump: u8 },
    MintCreate { bump: u8 },
    MintSetup,
}

impl View for Stage {
    type V = StageView;

    open spec fn view(&self) -> StageView {
        match self {
            Stage::ReviewRent { words, bump } => StageView::ReviewRent {
                words: words@,
                bump: *bump,
            },
            Stage::ReviewCreate { words } => StageView::ReviewCreate { words: words@ },
            Stage::ReviewRead { words } => StageView::ReviewRead { words: words@ },
            Stage::ReviewWrite { review, fault } => StageView::ReviewWrite {
                review: *review,
                fault: fault_view(*fault),
            },
            Stage::CounterRent { review } => StageView::CounterRent { review: *review },
            Stage::CounterCreate => StageView::CounterCreate,
            Stage::CounterRead => StageView::CounterRead,
            Stage::CounterWrite { fault } => StageView::CounterWrite { fault: fault_view(*fault) },
            Stage::UpdateRead { words } => StageView::UpdateRead { words: words@ },
            Stage::UpdateWrite { fault } => StageView::UpdateWrite { fault: fault_view(*fault) },
            Stage::CommentCount { comment } => StageView::CommentCount { comment: comment@ },
            Stage::CommentRent { comment, counter } => StageView::CommentRent {
                comment: comment@,
                counter: counter@,
            },
            Stage::CommentCreate { comment, counter } => StageView::CommentCreate {
                comment: comment@,
                counter: counter@,
            },
            Stage::CommentRead { comment, counter } => StageView::CommentRead {
                comment: comment@,
                counter: counter@,
            },
            Stage::CommentWrite { counter, fault } => StageView::CommentWrite {
                counter: counter@,
                fault: fault_view(*fault),
            },
            Stage::CountRead { counter } => StageView::CountRead { counter: counter@ },
            Stage::CountWrite { fault } => StageView::CountWrite { fault: fault_view(*fault) },
            Stage::Payment => StageView::Payment,
            Stage::MintRent { bump } => StageView::MintRent { bump: *bump },
            Stage::MintCreate { bump } => StageView::MintCreate { bump: *bump },
            Stage::MintSetup => StageView::MintSetup,
        }
    }
}

/// A request that is being worked through.
#[derive(Debug, PartialEq, Eq)]
pub struct Flow {
    pub program_id: Pubkey,
    pub accounts: Vec<Account>,
    pub stage: Stage,
}

/// What [`Flow`] stands for.
pub struct FlowView {
    pub program_id: Pubkey,
    pub accounts: Seq<Account>,
    pub stage: StageView,
}

impl View for Flow {
    type V = FlowView;

    open spec fn view(&self) -> FlowView {
        FlowView {
            program_id: self.program_id,
            accounts: self.accounts@,
            stage: self.stage@,
        }
    }
}

/// What comes next of a request: its result, or something to ask of the host and
/// the flow that goes on with the answer.
#[derive(Debug, PartialEq, Eq)]
pub enum Step {
    Done(Result<(), ProgramError>),
    Ask(Action, Flow),
}

/// What [`Step`] stands for.
pub enum StepView {
    Done(Result<(), ErrorView>),
    Ask(ActionView, FlowView),
}

impl View for Step {
    type V = StepView;

    open spec fn view(&self) -> StepView {
        match self {
            Step::Done(Ok(())) => StepView::Done(Ok(())),
            Step::Done(Err(error)) => StepView::Done(Err(error@)),
            Step::Ask(action, flow) => StepView::Ask(action@, flow@),
        }
    }
}

/// The kinds of question.
pub enum Question {
    Rent,
    Invoke,
    Read,
    Write,
}

impl ActionView {
    /// The kind of question that an action puts.
    pub open spec fn question(self) -> Question {
        match self {
            ActionView::Rent { .. } => Question::Rent,
            ActionView::Invoke { .. } => Question::Invoke,
            ActionView::Read { .. } => Question::Read,
            ActionView::Write { .. } => Question::Write,
        }
    }
}

impl EventView {
    /// Whether an event answers a question of this kind.
    pub open spec fn answers(self, question: Question) -> bool {
        match self {
            EventView::Rent(_) => question is Rent,
            EventView::Invoked => question is Invoke,
            EventView::Data(_) => question is Read,
            EventView::Written => question is Write,
            EventView::Failed(_) => question is Rent || question is Invoke,
        }
    }
}

impl StageView {
    /// The kind of question whose answer is awaited.
    pub open spec fn awaits(self) -> Question {
        match self {
            StageView::ReviewRent { .. } => Question::Rent,
            StageView::ReviewCreate { .. } => Question::Invoke,
            StageView::ReviewRead { .. } => Question::Read,
            StageView::ReviewWrite { .. } => Question::Write,
            StageView::CounterRent { .. } => Question::Rent,
            StageView::CounterCreate => Question::Invoke,
            StageView::CounterRead => Question::Read,
            StageView::CounterWrite { .. } => Question::Write,
            StageView::UpdateRead { .. } => Question::Read,
            StageView::UpdateWrite { .. } => Question::Write,
            StageView::CommentCount { .. } => Question::Read,
            StageView::CommentRent { .. } => Question::Rent,
            StageView::CommentCreate { .. } => Question::Invoke,
            StageView::CommentRead { .. } => Question::Read,
            StageView::CommentWrite { .. } => Question::Write,
            StageView::CountRead { .. } => Question::Read,
            StageView::CountWrite { .. } => Question::Write,
            StageView::Payment => Question::Invoke,
            StageView::MintRent { .. } => Question::Rent,
            StageView::MintCreate { .. } => Question::Invoke,
            StageView::MintSetup => Question::Invoke,
        }
    }

    /// How many accounts the rest of the request names.
    pub open spec fn places(self) -> nat {
        match self {
            StageView::ReviewRent { .. } => 7,
            StageView::ReviewCreate { .. } => 7,
            StageView::ReviewRead { .. } => 7,
            StageView::ReviewWrite { .. } => 7,
            StageView::CounterRent { .. } => 7,
            StageView::CounterCreate => 7,
            StageView::CounterRead => 7,
            StageView::CounterWrite { .. } => 7,
            StageView::UpdateRead { .. } => 2,
            StageView::UpdateWrite { .. } => 2,
            StageView::CommentCount { .. } => 9,
            StageView::CommentRent { .. } => 9,
            StageView::CommentCreate { .. } => 9,
            StageView::CommentRead { .. } => 9,
            StageView::CommentWrite { .. } => 9,
            StageView::CountRead { .. } => 9,
            StageView::CountWrite { .. } => 9,
            StageView::Payment => 0,
            StageView::MintRent { .. } => 6,
            StageView::MintCreate { .. } => 6,
            StageView::MintSetup => 6,
        }
    }

    /// Whether the sizes that are still to be reckoned are sizes of this machine.
    pub open spec fn sizes_fit(self) -> bool {
        match self {
            StageView::UpdateRead { words } => review_size(words.title, words.description)
                <= usize::MAX,
            StageView::CommentCount { comment } => comment_size(comment) <= usize::MAX,
            StageView::CommentRent { comment, .. } => comment_size(comment) <= usize::MAX,
            _ => true,
        }
    }
}

impl FlowView {
    /// What holds of every request that is being worked through.
    pub open spec fn wf(self) -> bool {
        &&& self.accounts.len() >= self.stage.places()
        &&& self.stage.sizes_fit()
        &&& (self.stage is MintRent || self.stage is MintCreate) ==> self.accounts[4].key@
            == token_program_key()
    }
}

impl StepView {
    /// What holds of every step: the flow is well formed and goes on with the
    /// answer to the action.
    pub open spec fn wf(self) -> bool {
        match self {
            StepView::Done(_) => true,
            StepView::Ask(action, flow) => flow.wf() && flow.stage.awaits() == action.question(),
        }
    }
}

} // verus!
