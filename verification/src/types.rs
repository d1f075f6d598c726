use vstd::prelude::*;

verus! {

/// An account or contract address, held as the 56 ASCII characters of its
/// Stellar strkey (`G...` for accounts, `C...` for contracts).
#[derive(Clone, Copy, Debug)]
pub struct Address {
    pub strkey: [u8; 56],
}

impl View for Address {
    type V = Seq<u8>;

    open spec fn view(&self) -> Seq<u8> {
        self.strkey@
    }
}

impl Address {
    /// Builds an address from its strkey characters.
    pub fn new(strkey: [u8; 56]) -> (a: Address)
        ensures
            a.strkey == strkey,
    {
        Address { strkey }
    }
}

impl PartialEq for Address {
    fn eq(&self, other: &Address) -> (same: bool) {
        let mut i: usize = 0;
        while i < 56
            invariant
                0 <= i <= 56,
                forall|j: int| 0 <= j < i ==> self.strkey@[j] == other.strkey@[j],
            decreases 56 - i,
        {
            if self.strkey[i] != other.strkey[i] {
                return false;
            }
            i = i + 1;
        }
        assert(self.strkey@ =~= other.strkey@);
        true
    }
}

impl vstd::std_specs::cmp::PartialEqSpecImpl for Address {
    open spec fn obeys_eq_spec() -> bool {
        true
    }

    open spec fn eq_spec(&self, other: &Address) -> bool {
        self.strkey@ == other.strkey@
    }
}

impl Eq for Address {}

/// The period at which a vesting lockup releases a slice of its amount.
#[derive(Clone, Copy, PartialEq, Eq, Structural, Debug)]
pub enum Rate {
    Daily,
    Weekly,
    Monthly,
    Quarterly,
    Annually,
}

impl Rate {
    /// The length of one period in seconds.
    pub open spec fn seconds(self) -> int {
        match self {
            Rate::Daily => 86400,
            Rate::Weekly => 604800,
            Rate::Monthly => 2592000,
            Rate::Quarterly => 10368000,
            Rate::Annually => 31536000,
        }
    }

    /// The length of one period in seconds (the value the contract stores for it).
    pub fn in_seconds(&self) -> (s: u32)
        ensures
            s == self.seconds(),
    {
        match self {
            Rate::Daily => 86400,
            Rate::Weekly => 604800,
            Rate::Monthly => 2592000,
            Rate::Quarterly => 10368000,
            Rate::Annually => 31536000,
        }
    }
}

/// How a lockup's amount is split at some moment between the two sides.
#[derive(Clone, Copy, PartialEq, Eq, Structural, Debug)]
pub struct Amounts {
    pub sender_amount: i128,
    pub receiver_amount: i128,
}

/// What a caller hands over to create a lockup.
#[derive(Clone, Copy, PartialEq, Eq, Debug)]
pub struct LockupInput {
    pub sender: Address,
    pub receiver: Address,
    pub token: Address,
    pub amount: i128,
    pub cancellable_date: u64,
    pub cliff_date: u64,
    pub start_date: u64,
    pub end_date: u64,
    pub rate: Rate,
    pub is_vesting: bool,
}

/// A stored lockup: a linear stream or a vesting schedule.
#[derive(Clone, Copy, PartialEq, Eq, Debug)]
pub struct Lockup {
    pub withdrawn: i128,
    pub is_cancelled: bool,
    pub sender: Address,
    pub receiver: Address,
    pub token: Address,
    pub amount: i128,
    pub cancellable_date: u64,
    pub cancelled_date: u64,
    pub cliff_date: u64,
    pub start_date: u64,
    pub end_date: u64,
    pub rate: Rate,
    pub is_vesting: bool,
}

/// The lockup that an input describes, before it is stored: nothing withdrawn,
/// not cancelled, and marked as a stream.
pub open spec fn lockup_of_input(input: LockupInput) -> Lockup {
    Lockup {
        withdrawn: 0,
        is_cancelled: false,
        sender: input.sender,
        receiver: input.receiver,
        token: input.token,
        amount: input.amount,
        cancellable_date: input.cancellable_date,
        cancelled_date: 0,
        cliff_date: input.cliff_date,
        start_date: input.start_date,
        end_date: input.end_date,
        rate: input.rate,
        is_vesting: false,
    }
}

impl From<LockupInput> for Lockup {
    fn from(input: LockupInput) -> (lockup: Lockup) {
        Lockup {
            withdrawn: 0,
            is_cancelled: false,
            sender: input.sender,
            receiver: input.receiver,
            token: input.token,
            amount: input.amount,
            cancellable_date: input.cancellable_date,
            cancelled_date: 0,
            cliff_date: input.cliff_date,
            start_date: input.start_date,
            end_date: input.end_date,
            rate: input.rate,
            is_vesting: false,
        }
    }
}

impl vstd::std_specs::convert::FromSpecImpl<LockupInput> for Lockup {
    open spec fn obeys_from_spec() -> bool {
        true
    }

    open spec fn from_spec(input: LockupInput) -> Lockup {
        lockup_of_input(input)
    }
}

} // verus!
