use fluxity::contract::Fluxity;
use fluxity::effects::{Effect, EventKind, Recipient};
use fluxity::errors::CustomErrors;
use fluxity::types::{Address, Lockup, LockupInput, Rate};

fn address(tag: u8) -> Address {
    let mut strkey = [b'A'; 56];
    strkey[0] = b'G';
    strkey[55] = tag;
    Address::new(strkey)
}

fn contract_address() -> Address {
    let mut strkey = [b'A'; 56];
    strkey[0] = b'C';
    Address::new(strkey)
}

/// Token balances as the token contracts would hold them after the effects ran.
struct Balances {
    entries: Vec<(Address, Address, i128)>,
}

impl Balances {
    fn new() -> Self {
        Balances { entries: Vec::new() }
    }

    fn add(&mut self, token: Address, holder: Address, delta: i128) {
        for entry in self.entries.iter_mut() {
            if entry.0 == token && entry.1 == holder {
                entry.2 += delta;
                return;
            }
        }
        self.entries.push((token, holder, delta));
    }

    fn balance(&self, token: Address, holder: Address) -> i128 {
        for entry in self.entries.iter() {
            if entry.0 == token && entry.1 == holder {
                return entry.2;
            }
        }
        0
    }

    fn apply(&mut self, effects: &[Effect]) {
        for effect in effects {
            match *effect {
                Effect::TransferFrom { token, from, recipient, amount } => {
                    self.add(token, from, -amount);
                    let to = match recipient {
                        Recipient::Contract => contract_address(),
                        Recipient::Account(a) => a,
                    };
                    self.add(token, to, amount);
                }
                Effect::Transfer { token, to, amount } => {
                    self.add(token, contract_address(), -amount);
                    self.add(token, to, amount);
                }
                _ => {}
            }
        }
    }
}

struct StreamFields {
    amount: i128,
    start_date: u64,
    end_date: u64,
    cliff_date: u64,
    cancellable_date: u64,
}

impl Default for StreamFields {
    fn default() -> Self {
        StreamFields { amount: 1000, start_date: 0, end_date: 100, cliff_date: 0, cancellable_date: 0 }
    }
}

struct Setup {
    contract: Fluxity,
    admin: Address,
    token: Address,
    xlm: Address,
    amount: i128,
    balances: Balances,
    events: Vec<Effect>,
}

impl Setup {
    fn setup(amount: i128) -> Self {
        let admin = address(1);
        let token = address(2);
        let xlm = address(3);
        let mut contract = Fluxity::new();
        let mut effects = Vec::new();
        contract.initialize(admin, xlm, &mut effects);
        let mut balances = Balances::new();
        balances.add(token, admin, amount);
        Setup { contract, admin, token, xlm, amount, balances, events: Vec::new() }
    }

    fn run(&mut self, effects: Vec<Effect>) {
        self.balances.apply(&effects);
        self.events.extend(effects);
    }

    fn params(&self, receiver: Address, fields: &StreamFields, rate: Rate) -> LockupInput {
        let now = 0;
        LockupInput {
            sender: self.admin,
            receiver,
            token: self.token,
            amount: fields.amount,
            cancellable_date: now + fields.cancellable_date,
            cliff_date: now + fields.cliff_date,
            start_date: now + fields.start_date,
            end_date: now + fields.end_date,
            rate,
            is_vesting: false,
        }
    }

    fn create_stream(&mut self, params: LockupInput) -> Result<u64, CustomErrors> {
        let mut effects = Vec::new();
        let r = self.contract.create_stream(params, &mut effects);
        self.run(effects);
        r
    }

    fn create_vesting(&mut self, params: LockupInput) -> Result<u64, CustomErrors> {
        let mut effects = Vec::new();
        let r = self.contract.create_vesting(params, &mut effects);
        self.run(effects);
        r
    }

    fn cancel(&mut self, id: u64, now: u64) -> Result<(i128, i128), CustomErrors> {
        let mut effects = Vec::new();
        let r = self.contract.cancel_lockup(id, now, &mut effects);
        if r.is_ok() {
            self.run(effects);
        }
        r
    }

    fn withdraw(&mut self, id: u64, now: u64, amount: i128) -> Result<i128, CustomErrors> {
        let mut effects = Vec::new();
        let r = self.contract.withdraw_lockup(id, now, amount, &mut effects);
        if r.is_ok() {
            self.run(effects);
        }
        r
    }

    fn lockup(&self, id: u64) -> Lockup {
        self.contract.get_lockup(id).unwrap()
    }

    fn setup_with_stream_created(fields: StreamFields) -> (Self, u64) {
        let mut vars = Self::setup(fields.amount);
        let params = vars.params(address(9), &fields, Rate::Monthly);
        let id = vars.create_stream(params).unwrap();
        assert_eq!(vars.lockup(0).sender, vars.admin);
        assert_eq!(vars.balances.balance(vars.token, vars.admin), 0);
        assert_eq!(vars.balances.balance(vars.token, contract_address()), vars.amount);
        (vars, id)
    }
}

// ------------------------------------------------------------------ cancel

#[test]
fn test_stream_should_be_cancelled_after_creation() {
    let (mut vars, id) = Setup::setup_with_stream_created(StreamFields::default());

    let amounts = vars.cancel(id, 0).unwrap();
    let stream = vars.lockup(id);

    assert_eq!(vars.balances.balance(vars.token, contract_address()), 0);
    assert_eq!(vars.balances.balance(vars.token, vars.admin), vars.amount);
    assert_eq!(vars.balances.balance(vars.token, vars.admin), amounts.0);
    assert_eq!(vars.balances.balance(vars.token, stream.receiver), 0);
    assert_eq!(vars.balances.balance(vars.token, stream.receiver), amounts.1);
    assert!(stream.is_cancelled);
}

#[test]
fn test_cancel_stream_should_emit_event() {
    let (mut vars, id) = Setup::setup_with_stream_created(StreamFields::default());

    vars.cancel(id, 0).unwrap();

    assert!(vars.events.contains(&Effect::Publish { kind: EventKind::Cancelled, id }));
}

#[test]
fn test_cancel_stream_should_transfer_tokens_to_both_sides() {
    let (mut vars, id) = Setup::setup_with_stream_created(StreamFields::default());

    let amounts = vars.cancel(id, 50).unwrap();
    let stream = vars.lockup(id);

    assert_eq!(vars.balances.balance(vars.token, contract_address()), 0);
    assert_eq!(vars.balances.balance(vars.token, vars.admin), vars.amount / 2);
    assert_eq!(vars.balances.balance(vars.token, vars.admin), amounts.0);
    assert_eq!(vars.balances.balance(vars.token, stream.receiver), vars.amount / 2);
    assert_eq!(vars.balances.balance(vars.token, stream.receiver), amounts.1);
}

#[test]
fn test_cancel_stream_should_revert_when_stream_is_already_cancelled() {
    let (mut vars, id) = Setup::setup_with_stream_created(StreamFields::default());

    vars.cancel(id, 0).unwrap();
    let result = vars.cancel(id, 0);

    assert_eq!(result, Err(CustomErrors::LockupAlreadyCanceled));
}

#[test]
fn test_cancel_stream_should_revert_when_stream_is_already_settled() {
    let (mut vars, id) = Setup::setup_with_stream_created(StreamFields::default());

    let new_timestamp = 100;
    let result = vars.cancel(id, new_timestamp);

    assert_eq!(result, Err(CustomErrors::LockupAlreadySettled));
}

#[test]
fn test_cancel_stream_should_revert_when_cancellable_date_is_not_reached() {
    let (mut vars, id) = Setup::setup_with_stream_created(StreamFields {
        cancellable_date: 50,
        ..Default::default()
    });

    let new_timestamp = 20;
    let result = vars.cancel(id, new_timestamp);

    assert_eq!(result, Err(CustomErrors::LockupNotCancellableYet));
}

#[test]
fn test_cancel_stream_should_transfer_when_withdrawn_is_not_zero() {
    let (mut vars, id) = Setup::setup_with_stream_created(StreamFields::default());

    let token_balance = vars.balances.balance(vars.token, vars.admin);
    let withdraw_amount = vars.withdraw(id, 50, 200).unwrap();
    let amounts = vars.cancel(id, 50).unwrap();
    let stream = vars.lockup(id);

    assert_eq!(withdraw_amount, 200);
    assert_eq!(amounts.0, 500);
    assert_eq!(amounts.1, 300);

    assert_eq!(vars.balances.balance(vars.token, contract_address()), 0);
    assert_eq!(vars.balances.balance(vars.token, vars.admin), token_balance + vars.amount / 2);
    assert_eq!(vars.balances.balance(vars.token, stream.receiver), 500);
}

#[test]
fn test_cancel_stream_should_not_transfer_when_stream_is_fully_withdrawn() {
    let (mut vars, id) = Setup::setup_with_stream_created(StreamFields::default());

    let admin_balance = vars.balances.balance(vars.token, vars.admin);

    vars.withdraw(id, 100, 0).unwrap();
    let stream = vars.lockup(id);

    assert_eq!(vars.balances.balance(vars.token, contract_address()), 0);
    assert_eq!(vars.balances.balance(vars.token, vars.admin), admin_balance);
    assert_eq!(vars.balances.balance(vars.token, stream.receiver), 1000);

    let result = vars.cancel(id, 100);

    assert_eq!(result, Err(CustomErrors::LockupAlreadySettled));
}

// ------------------------------------------------------------------ create

fn stream_input(vars: &Setup, receiver: Address, amount: i128, cancellable: u64, cliff: u64, start: u64, end: u64) -> LockupInput {
    LockupInput {
        sender: vars.admin,
        receiver,
        token: vars.token,
        amount,
        cancellable_date: cancellable,
        cliff_date: cliff,
        start_date: start,
        end_date: end,
        rate: Rate::Monthly,
        is_vesting: false,
    }
}

#[test]
fn test_stream_should_be_created() {
    let mut vars = Setup::setup(2000);
    let now = 0;
    let params = stream_input(&vars, address(9), vars.amount, now, now + 100, now, now + 1000);

    let id = vars.create_stream(params).unwrap();

    assert_eq!(id, 0);
    assert_eq!(vars.balances.balance(vars.token, vars.admin), 0);
    assert_eq!(vars.balances.balance(vars.token, contract_address()), vars.amount);
}

#[test]
fn test_create_stream_should_emit_events() {
    let mut vars = Setup::setup(2000);
    let now = 0;
    let params = stream_input(&vars, address(9), vars.amount, now, now + 100, now, now + 1000);

    vars.create_stream(params).unwrap();

    assert!(vars.events.contains(&Effect::Publish { kind: EventKind::Created, id: 0 }));
}

#[test]
fn test_second_stream_should_have_incremented_id() {
    let mut vars = Setup::setup(2000);
    let now = 0;
    let params = stream_input(&vars, address(9), vars.amount / 2, now, now + 100, now, now + 1000);

    let id0 = vars.create_stream(params).unwrap();
    let id1 = vars.create_stream(params).unwrap();

    assert_eq!(vars.balances.balance(vars.token, vars.admin), 0);
    assert_eq!(id0, 0);
    assert_eq!(id1, 1);
}

#[test]
fn test_stream_should_revert_when_start_date_is_equal_to_end_date() {
    let mut vars = Setup::setup(2000);
    let now = 0;
    let params = stream_input(&vars, address(9), vars.amount, now, now, now, now);

    assert_eq!(vars.create_stream(params), Err(CustomErrors::InvalidStartDate));
}

#[test]
fn test_stream_should_revert_when_start_date_is_greater_than_end_date() {
    let mut vars = Setup::setup(2000);
    let now = 0;
    let params = stream_input(&vars, address(9), vars.amount, now, now + 2, now + 2, now);

    assert_eq!(vars.create_stream(params), Err(CustomErrors::InvalidStartDate));
}

#[test]
fn test_stream_should_revert_when_cliff_date_is_less_than_start_date() {
    let mut vars = Setup::setup(2000);
    let now = 0;
    let params = stream_input(&vars, address(9), vars.amount, now + 100, now, now + 100, now + 200);

    assert_eq!(vars.create_stream(params), Err(CustomErrors::InvalidCliffDate));
}

#[test]
fn test_stream_should_revert_when_amount_is_zero() {
    let mut vars = Setup::setup(2000);
    let now = 0;
    let params = stream_input(&vars, address(9), 0, now, now, now, now);

    assert_eq!(vars.create_stream(params), Err(CustomErrors::InvalidAmount));
}

#[test]
fn test_stream_should_revert_when_amount_is_negative() {
    let mut vars = Setup::setup(2000);
    let now = 0;
    let params = stream_input(&vars, address(9), -100, now, now, now, now);

    assert_eq!(vars.create_stream(params), Err(CustomErrors::InvalidAmount));
}

#[test]
fn test_stream_should_revert_when_sender_and_receiver_are_the_same_address() {
    let mut vars = Setup::setup(2000);
    let now = 0;
    let admin = vars.admin;
    let params = stream_input(&vars, admin, 100, now, now, now, now);

    assert_eq!(vars.create_stream(params), Err(CustomErrors::InvalidReceiver));
}

// ----------------------------------------------------------------- vesting

fn vesting_input(vars: &Setup, receiver: Address, amount: i128, cancellable: u64, start: u64, end: u64) -> LockupInput {
    LockupInput {
        sender: vars.admin,
        receiver,
        token: vars.token,
        amount,
        cancellable_date: cancellable,
        cliff_date: start,
        start_date: start,
        end_date: end,
        rate: Rate::Daily,
        is_vesting: false,
    }
}

#[test]
fn test_create_vesting_should_work() {
    let mut vars = Setup::setup(1000);
    let now = 0;
    let end_date = Rate::Daily.in_seconds() as u64 * 2;
    let params = vesting_input(&vars, address(9), 1000, now, now, end_date);

    assert!(vars.create_vesting(params).is_ok());
}

#[test]
fn test_create_vesting_should_store_is_vesting_to_true() {
    let mut vars = Setup::setup(1000);
    let now = 0;
    let end_date = Rate::Daily.in_seconds() as u64 * 2;
    let params = vesting_input(&vars, address(9), 1000, now, now, end_date);

    let id = vars.create_vesting(params).unwrap();
    let stream = vars.lockup(id);

    assert_eq!(stream.is_vesting, true);
}

#[test]
fn test_create_vesting_should_revert_when_amount_is_negative() {
    let mut vars = Setup::setup(1000);
    let now = 0;
    let end_date = Rate::Daily.in_seconds() as u64 * 2;
    let params = vesting_input(&vars, address(9), -100, now, now, end_date);

    assert_eq!(vars.create_vesting(params), Err(CustomErrors::InvalidAmount));
}

#[test]
fn test_create_vesting_should_revert_when_amount_is_zero() {
    let mut vars = Setup::setup(1000);
    let now = 0;
    let end_date = Rate::Daily.in_seconds() as u64 * 2;
    let params = vesting_input(&vars, address(9), 0, now, now, end_date);

    assert_eq!(vars.create_vesting(params), Err(CustomErrors::InvalidAmount));
}

#[test]
fn test_create_vesting_should_revert_when_sender_and_receiver_are_the_same() {
    let mut vars = Setup::setup(1000);
    let now = 0;
    let end_date = Rate::Daily.in_seconds() as u64 * 2;
    let admin = vars.admin;
    let params = vesting_input(&vars, admin, 1000, now, now, end_date);

    assert_eq!(vars.create_vesting(params), Err(CustomErrors::InvalidReceiver));
}

#[test]
fn test_create_vesting_should_revert_when_start_date_is_equal_to_end_date() {
    let mut vars = Setup::setup(1000);
    let now = 0;
    let params = vesting_input(&vars, address(9), 1000, now, now, now);

    assert_eq!(vars.create_vesting(params), Err(CustomErrors::InvalidStartDate));
}

#[test]
fn test_create_vesting_should_revert_when_cancellable_date_is_greater_than_end_date() {
    let mut vars = Setup::setup(1000);
    let now = 0;
    let end_date = Rate::Daily.in_seconds() as u64 * 2;
    let params = vesting_input(&vars, address(9), 1000, end_date + 1, now, end_date);

    assert_eq!(vars.create_vesting(params), Err(CustomErrors::InvalidCancellableDate));
}

// --------------------------------------------------------------------- get

#[test]
fn test_get_stream_should_return_the_correct_data() {
    let (vars, id) = Setup::setup_with_stream_created(StreamFields::default());

    let stream = vars.lockup(id);

    assert_eq!(stream.sender, vars.admin);
}

#[test]
fn test_get_stream_should_revert_when_stream_does_not_exist() {
    let (vars, _) = Setup::setup_with_stream_created(StreamFields::default());

    let stream = vars.contract.get_lockup(1);

    assert_eq!(stream, Err(CustomErrors::LockupNotFound));
}

// ---------------------------------------------------------------- withdraw

#[test]
fn test_stream_should_be_withdrawable_by_receiver() {
    let (mut vars, id) = Setup::setup_with_stream_created(StreamFields::default());

    let amount = vars.withdraw(id, 50, 0).unwrap();
    let stream = vars.lockup(id);

    assert_eq!(amount, 500);
    assert_eq!(vars.balances.balance(vars.token, stream.receiver), 500);
    assert_eq!(vars.balances.balance(vars.token, contract_address()), 500);
}

#[test]
fn test_withdraw_stream_should_take_everything_at_end_date() {
    let (mut vars, id) = Setup::setup_with_stream_created(StreamFields::default());

    let amount = vars.withdraw(id, 100, 0).unwrap();
    let stream = vars.lockup(id);

    assert_eq!(amount, 1000);
    assert_eq!(vars.balances.balance(vars.token, stream.receiver), 1000);
    assert_eq!(vars.balances.balance(vars.token, contract_address()), 0);
}

#[test]
fn test_withdraw_stream_should_take_everything_after_end_date() {
    let (mut vars, id) = Setup::setup_with_stream_created(StreamFields::default());

    let amount = vars.withdraw(id, 200, 0).unwrap();
    let stream = vars.lockup(id);

    assert_eq!(amount, 1000);
    assert_eq!(vars.balances.balance(vars.token, stream.receiver), 1000);
    assert_eq!(vars.balances.balance(vars.token, contract_address()), 0);
}

#[test]
fn test_withdraw_stream_should_be_callable_multiple_times_with_custom_amount() {
    let (mut vars, id) = Setup::setup_with_stream_created(StreamFields::default());

    let amount0 = vars.withdraw(id, 50, 100).unwrap();
    let amount1 = vars.withdraw(id, 50, 100).unwrap();
    let stream = vars.lockup(id);

    assert_eq!(amount0, 100);
    assert_eq!(amount1, 100);
    assert_eq!(vars.balances.balance(vars.token, stream.receiver), 200);
    assert_eq!(vars.balances.balance(vars.token, contract_address()), 800);
}

#[test]
fn test_withdraw_stream_should_be_callable_multiple_times() {
    let (mut vars, id) = Setup::setup_with_stream_created(StreamFields::default());

    let amount0 = vars.withdraw(id, 50, 100).unwrap();
    let amount1 = vars.withdraw(id, 50, 0).unwrap();
    let stream = vars.lockup(id);

    assert_eq!(amount0, 100);
    assert_eq!(amount1, 400);
    assert_eq!(vars.balances.balance(vars.token, stream.receiver), 500);
    assert_eq!(vars.balances.balance(vars.token, contract_address()), 500);
}

#[test]
fn test_withdraw_stream_should_return_zero_if_called_before_cliff_date() {
    let (mut vars, id) = Setup::setup_with_stream_created(StreamFields {
        cliff_date: 50,
        ..Default::default()
    });

    let amount = vars.withdraw(id, 50, 0).unwrap();
    let stream = vars.lockup(id);

    assert_eq!(amount, 0);
    assert_eq!(vars.balances.balance(vars.token, stream.receiver), 0);
    assert_eq!(vars.balances.balance(vars.token, contract_address()), 1000);
}

#[test]
fn test_withdraw_stream_should_bounce_if_called_after_cliff_date() {
    let (mut vars, id) = Setup::setup_with_stream_created(StreamFields {
        cliff_date: 50,
        ..Default::default()
    });

    let amount = vars.withdraw(id, 51, 0).unwrap();
    let stream = vars.lockup(id);

    assert_eq!(amount, 510);
    assert_eq!(vars.balances.balance(vars.token, stream.receiver), 510);
    assert_eq!(vars.balances.balance(vars.token, contract_address()), 490);
}

#[test]
fn test_withdraw_stream_should_change_stream_state() {
    let (mut vars, id) = Setup::setup_with_stream_created(StreamFields::default());

    vars.withdraw(id, 50, 0).unwrap();

    let stream = vars.lockup(id);

    assert_eq!(stream.withdrawn, 500);
}

#[test]
fn test_withdraw_stream_should_revert_when_stream_is_not_started_yet() {
    let (mut vars, id) = Setup::setup_with_stream_created(StreamFields::default());

    let result = vars.withdraw(id, 0, 0);

    assert_eq!(result, Err(CustomErrors::LockupNotStartedYet));
}

#[test]
fn test_withdraw_stream_should_revert_when_amount_is_negative() {
    let (mut vars, id) = Setup::setup_with_stream_created(StreamFields::default());

    let result = vars.withdraw(id, 0, -10);

    assert_eq!(result, Err(CustomErrors::AmountUnderflows));
}

// -------------------------------------------------------------------- fees

#[test]
fn test_take_zero_fee() {
    let mut vars = Setup::setup(1000);
    let start_date = 0;
    let end_date = start_date + 86400 * 10;
    let params = stream_input(&vars, address(9), vars.amount, end_date, end_date, start_date, end_date);

    let admin = vars.contract.get_admin();
    let balance_before = vars.balances.balance(vars.xlm, admin);

    vars.create_stream(params).unwrap();

    let balance_after = vars.balances.balance(vars.xlm, admin);

    assert_eq!(balance_before, balance_after);
}

#[test]
fn test_take_fee_if_stream_is_more_than_one_month() {
    let mut vars = Setup::setup(1000);
    let xlm_amount: i128 = 10000000;
    let user = address(7);

    let mut effects = Vec::new();
    vars.contract.set_monthly_fee(xlm_amount, &mut effects);
    vars.balances.add(vars.xlm, vars.admin, xlm_amount);

    let (token, xlm, admin, amount) = (vars.token, vars.xlm, vars.admin, vars.amount);
    vars.balances.add(token, admin, -amount);
    vars.balances.add(token, user, amount);
    vars.balances.add(xlm, admin, -xlm_amount);
    vars.balances.add(xlm, user, xlm_amount);

    assert_eq!(vars.balances.balance(vars.xlm, user), xlm_amount);
    assert_eq!(vars.balances.balance(vars.token, user), vars.amount);
}

fn fee_input(vars: &Setup, sender: Address, receiver: Address, start: u64, end: u64) -> LockupInput {
    LockupInput {
        sender,
        receiver,
        token: vars.token,
        amount: vars.amount,
        cancellable_date: start,
        cliff_date: end,
        start_date: start,
        end_date: end,
        rate: Rate::Monthly,
        is_vesting: false,
    }
}

#[test]
fn test_no_xlm_fee_should_be_taken() {
    let amount: i128 = 2000;
    let mut vars = Setup::setup(amount);
    let sender = address(5);
    let receiver = address(6);
    let start_date = 0;
    let end_date = start_date + 1000;

    let (token, admin) = (vars.token, vars.admin);
    vars.balances.add(token, admin, -amount);
    vars.balances.add(token, sender, amount);

    let admin_xlm_balance_before = vars.balances.balance(vars.xlm, vars.admin);
    let params = fee_input(&vars, sender, receiver, start_date, end_date);
    let id = vars.create_stream(params).unwrap();
    let admin_xlm_balance_after = vars.balances.balance(vars.xlm, vars.admin);

    assert_eq!(id, 0);
    assert_eq!(vars.balances.balance(vars.token, sender), 0);
    assert_eq!(admin_xlm_balance_after, admin_xlm_balance_before);
}

#[test]
fn test_xlm_fee_should_be_taken() {
    let amount: i128 = 2000;
    let mut vars = Setup::setup(amount);
    let sender = address(5);
    let receiver = address(6);
    let xlm_fee_one_month: i128 = 10000000;
    let start_date = 0;
    let end_date = start_date + 1000;

    let mut effects = Vec::new();
    vars.contract.set_monthly_fee(xlm_fee_one_month, &mut effects);

    let (token, xlm, admin) = (vars.token, vars.xlm, vars.admin);
    vars.balances.add(xlm, admin, xlm_fee_one_month);
    vars.balances.add(token, admin, -amount);
    vars.balances.add(token, sender, amount);
    vars.balances.add(xlm, admin, -xlm_fee_one_month);
    vars.balances.add(xlm, sender, xlm_fee_one_month);

    assert_eq!(vars.balances.balance(vars.token, sender), amount);
    assert_eq!(vars.balances.balance(vars.xlm, sender), xlm_fee_one_month);

    let params = fee_input(&vars, sender, receiver, start_date, end_date);

    assert_eq!(vars.contract.get_admin(), vars.admin);
    assert_eq!(vars.contract.get_xlm(), vars.xlm);
    assert_eq!(vars.contract.get_monthly_fee(), xlm_fee_one_month);

    let x1 = vars.balances.balance(vars.xlm, contract_address());
    let admin_xlm_balance_before = vars.balances.balance(vars.xlm, vars.admin);

    let id = vars.create_stream(params).unwrap();

    let x2 = vars.balances.balance(vars.xlm, contract_address());
    let admin_xlm_balance_after = vars.balances.balance(vars.xlm, vars.admin);

    assert_eq!(x1, x2);
    assert_eq!(id, 0);
    assert_eq!(vars.balances.balance(vars.token, sender), 0);
    assert_eq!(admin_xlm_balance_after, admin_xlm_balance_before + xlm_fee_one_month);
}

#[test]
fn test_xlm_fee_should_be_taken_multiple_times_for_nth_month() {
    let amount: i128 = 2000;
    let mut vars = Setup::setup(amount);
    let sender = address(5);
    let receiver = address(6);
    let xlm_fee_one_month: i128 = 10000000;
    let start_date = 0;
    let end_date = start_date + (86400 * 45);

    let mut effects = Vec::new();
    vars.contract.set_monthly_fee(xlm_fee_one_month, &mut effects);

    let (token, xlm, admin) = (vars.token, vars.xlm, vars.admin);
    vars.balances.add(xlm, admin, xlm_fee_one_month * 2);
    vars.balances.add(token, admin, -amount);
    vars.balances.add(token, sender, amount);
    vars.balances.add(xlm, admin, -(xlm_fee_one_month * 2));
    vars.balances.add(xlm, sender, xlm_fee_one_month * 2);

    assert_eq!(vars.balances.balance(vars.token, sender), amount);
    assert_eq!(vars.balances.balance(vars.xlm, sender), xlm_fee_one_month * 2);

    let admin_xlm_balance_before = vars.balances.balance(vars.xlm, vars.admin);
    let params = fee_input(&vars, sender, receiver, start_date, end_date);
    let id = vars.create_stream(params).unwrap();
    let admin_xlm_balance_after = vars.balances.balance(vars.xlm, vars.admin);

    assert_eq!(id, 0);
    assert_eq!(vars.balances.balance(vars.token, sender), 0);
    assert_eq!(admin_xlm_balance_after, admin_xlm_balance_before + xlm_fee_one_month * 2);
}
