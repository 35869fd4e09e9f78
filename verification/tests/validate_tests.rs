use amm_validator::entry::validate_transition;
use amm_validator::error::Error;
use amm_validator::liquidity::verify_initial_mint;
use amm_validator::pool::info_lock_args_prefix;
use amm_validator::record::{Record, Script, Transition};
use amm_validator::{INFO_CAPACITY, POOL_CAPACITY, SUDT_CAPACITY};

fn itch() -> Vec<u8> {
    vec![9u8; 20]
}

fn ilch() -> Vec<u8> {
    vec![8u8; 20]
}

fn ith() -> Vec<u8> {
    vec![3u8; 20]
}

fn pth() -> Vec<u8> {
    vec![4u8; 20]
}

fn lth() -> Vec<u8> {
    vec![7u8; 20]
}

fn user() -> Vec<u8> {
    vec![1u8; 32]
}

fn script(code: &[u8], hash: &[u8], args: Vec<u8>) -> Script {
    Script { code_hash: code.to_vec(), hash: hash.to_vec(), args }
}

fn plain_lock(hash: &[u8], args: Vec<u8>) -> Script {
    script(&[0u8; 20], hash, args)
}

fn rec(capacity: u64, data: Vec<u8>, type_script: Option<Script>, lock: Script) -> Record {
    Record { capacity, data, type_script, lock }
}

fn info_data(ckb: u128, sudt: u128, liq: u128) -> Vec<u8> {
    let mut v = Vec::new();
    v.extend_from_slice(&ckb.to_le_bytes());
    v.extend_from_slice(&sudt.to_le_bytes());
    v.extend_from_slice(&liq.to_le_bytes());
    v.extend_from_slice(&lth());
    v
}

fn snapshot_rec(ckb: u128, sudt: u128, liq: u128) -> Record {
    rec(
        INFO_CAPACITY,
        info_data(ckb, sudt, liq),
        Some(script(&itch(), &ith(), vec![])),
        plain_lock(&[11u8; 32], vec![]),
    )
}

fn reserve_rec(ckb: u128, sudt: u128) -> Record {
    rec(
        (POOL_CAPACITY as u64) + ckb as u64,
        sudt.to_le_bytes().to_vec(),
        Some(script(&[2u8; 20], &pth(), vec![])),
        plain_lock(&[12u8; 32], vec![]),
    )
}

fn carrier_rec() -> Record {
    rec(1000, vec![], None, plain_lock(&[13u8; 32], vec![]))
}

fn liq_args(version: u8, amount_0: u128, amount_1: u128, info_hash: &[u8]) -> Vec<u8> {
    let mut v = Vec::new();
    v.extend_from_slice(&user());
    v.push(version);
    v.extend_from_slice(&amount_0.to_le_bytes());
    v.extend_from_slice(&amount_1.to_le_bytes());
    v.extend_from_slice(info_hash);
    v.push(0);
    v
}

fn swap_args(version: u8, min_out: u128, sudt_type_hash: &[u8]) -> Vec<u8> {
    let mut v = Vec::new();
    v.extend_from_slice(&user());
    v.push(version);
    v.extend_from_slice(&min_out.to_le_bytes());
    v.extend_from_slice(sudt_type_hash);
    v.extend_from_slice(&0u64.to_le_bytes());
    v.extend_from_slice(&0u128.to_le_bytes());
    v
}

fn steady(ckb: u128, sudt: u128, liq: u128, swap_count: u64) -> Transition {
    Transition {
        inputs: vec![snapshot_rec(ckb, sudt, liq), reserve_rec(ckb, sudt), carrier_rec()],
        outputs: vec![snapshot_rec(0, 0, 0), reserve_rec(0, 0), carrier_rec()],
        witness: Some(swap_count.to_le_bytes().to_vec()),
    }
}

fn set_final(tx: &mut Transition, ckb1: u128, sudt1: u128, liq1: u128) {
    tx.outputs[0] = snapshot_rec(ckb1, sudt1, liq1);
    tx.outputs[1] = reserve_rec(ckb1, sudt1);
}

fn validate(tx: &Transition) -> Result<(), Error> {
    validate_transition(tx, &itch(), &ilch(), true)
}

fn initial_tx(deposit_ckb: u64, deposit_sudt: u128, minted: u128) -> Transition {
    Transition {
        inputs: vec![
            snapshot_rec(0, 0, 0),
            reserve_rec(0, 0),
            carrier_rec(),
            rec(
                SUDT_CAPACITY + deposit_ckb,
                deposit_sudt.to_le_bytes().to_vec(),
                Some(script(&[6u8; 20], &pth(), vec![])),
                plain_lock(&[14u8; 32], liq_args(1, 0, 0, &ith())),
            ),
        ],
        outputs: vec![
            snapshot_rec(deposit_ckb as u128, deposit_sudt, minted),
            reserve_rec(deposit_ckb as u128, deposit_sudt),
            carrier_rec(),
            rec(
                SUDT_CAPACITY,
                minted.to_le_bytes().to_vec(),
                Some(script(&[6u8; 20], &lth(), vec![])),
                plain_lock(&user(), vec![]),
            ),
        ],
        witness: Some(0u64.to_le_bytes().to_vec()),
    }
}

fn swap_ckb_to_sudt_tx(ckb_paid: u64, sudt_got: u128, min_out: u128) -> Transition {
    let mut tx = steady(100, 100, 1000, 1);
    tx.inputs.push(rec(
        SUDT_CAPACITY + ckb_paid,
        vec![],
        None,
        plain_lock(&[14u8; 32], swap_args(1, min_out, &[5u8; 32])),
    ));
    tx.outputs.push(rec(
        SUDT_CAPACITY,
        sudt_got.to_le_bytes().to_vec(),
        Some(script(&[6u8; 20], &[5u8; 32], vec![])),
        plain_lock(&user(), vec![]),
    ));
    set_final(&mut tx, 100 - ckb_paid as u128, 100 + sudt_got, 1000);
    tx
}

fn swap_sudt_to_ckb_tx(sudt_paid: u128, ckb_got: u64, min_out: u128) -> Transition {
    let mut tx = steady(1000, 1000, 100, 1);
    tx.inputs.push(rec(
        SUDT_CAPACITY,
        sudt_paid.to_le_bytes().to_vec(),
        Some(script(&[6u8; 20], &[5u8; 32], vec![])),
        plain_lock(&[14u8; 32], swap_args(1, min_out, &[5u8; 32])),
    ));
    tx.outputs.push(rec(
        SUDT_CAPACITY + ckb_got,
        vec![],
        None,
        plain_lock(&user(), vec![]),
    ));
    set_final(&mut tx, 1000 + ckb_got as u128, 1000 - sudt_paid, 100);
    tx
}

fn burn_tx(burn_amt: u128, min0: u128, min1: u128, got_ckb: u64, got_sudt: u128) -> Transition {
    let mut tx = steady(1000, 2000, 100, 0);
    tx.inputs.push(rec(
        200,
        burn_amt.to_le_bytes().to_vec(),
        Some(script(&[6u8; 20], &lth(), vec![])),
        plain_lock(&[14u8; 32], liq_args(1, min0, min1, &ith())),
    ));
    tx.outputs.push(rec(
        200,
        got_sudt.to_le_bytes().to_vec(),
        Some(script(&[6u8; 20], &pth(), vec![])),
        plain_lock(&user(), vec![]),
    ));
    tx.outputs.push(rec(got_ckb, vec![], None, plain_lock(&user(), vec![])));
    tx
}

fn mint_a_tx(user_liquidity: u128, min0: u128) -> Transition {
    let mut tx = steady(1000, 500, 100, 0);
    tx.inputs.push(rec(
        SUDT_CAPACITY + 1000 + 101,
        50u128.to_le_bytes().to_vec(),
        Some(script(&[6u8; 20], &pth(), vec![])),
        plain_lock(&[14u8; 32], liq_args(1, min0, 0, &ith())),
    ));
    tx.outputs.push(rec(
        SUDT_CAPACITY,
        user_liquidity.to_le_bytes().to_vec(),
        Some(script(&[6u8; 20], &lth(), vec![])),
        plain_lock(&user(), vec![]),
    ));
    tx.outputs.push(rec(1000, vec![], None, plain_lock(&user(), vec![])));
    set_final(&mut tx, 1101, 550, 100 + user_liquidity);
    tx
}

fn mint_b_tx(user_liquidity: u128, min1: u128) -> Transition {
    let mut tx = steady(1000, 500, 100, 0);
    tx.inputs.push(rec(
        2 * SUDT_CAPACITY + 200,
        300u128.to_le_bytes().to_vec(),
        Some(script(&[6u8; 20], &pth(), vec![])),
        plain_lock(&[14u8; 32], liq_args(1, 0, min1, &ith())),
    ));
    tx.outputs.push(rec(
        SUDT_CAPACITY,
        user_liquidity.to_le_bytes().to_vec(),
        Some(script(&[6u8; 20], &lth(), vec![])),
        plain_lock(&user(), vec![]),
    ));
    tx.outputs.push(rec(
        SUDT_CAPACITY,
        199u128.to_le_bytes().to_vec(),
        Some(script(&[6u8; 20], &pth(), vec![])),
        plain_lock(&user(), vec![]),
    ));
    set_final(&mut tx, 1200, 601, 100 + user_liquidity);
    tx
}

fn bootstrap_tx() -> Transition {
    let pool_type_hash = pth();
    let info_type_hash = vec![3u8; 32];
    let mut args = info_lock_args_prefix(&pool_type_hash);
    args.extend_from_slice(&info_type_hash);
    let lockh = vec![15u8; 32];
    Transition {
        inputs: vec![carrier_rec()],
        outputs: vec![
            rec(
                INFO_CAPACITY,
                info_data(0, 0, 0),
                Some(script(&itch(), &info_type_hash, vec![])),
                script(&ilch(), &lockh, args.clone()),
            ),
            rec(
                POOL_CAPACITY as u64,
                0u128.to_le_bytes().to_vec(),
                Some(script(&[2u8; 20], &pool_type_hash, vec![])),
                script(&ilch(), &lockh, args),
            ),
        ],
        witness: None,
    }
}

#[test]
fn initial_mint_geometric_mean() {
    let tx = initial_tx(50, 50, 50);
    assert_eq!(validate(&tx), Ok(()));
}

#[test]
fn initial_mint_rejects_wrong_liquidity() {
    assert_eq!(validate(&initial_tx(50, 50, 51)), Err(Error::MintInitialLiquidityFailed));
    assert_eq!(validate(&initial_tx(50, 50, 49)), Err(Error::MintInitialLiquidityFailed));
}

#[test]
fn initial_mint_truncates_root() {
    // floor(sqrt(50 * 51)) = 50: the root is truncated, never rounded up.
    assert_eq!(validate(&initial_tx(50, 51, 50)), Ok(()));
    assert_eq!(validate(&initial_tx(50, 51, 51)), Err(Error::MintInitialLiquidityFailed));
}

#[test]
fn initial_mint_rejects_zero_liquidity() {
    assert_eq!(validate(&initial_tx(0, 50, 0)), Err(Error::MintLiquidityEqZero));
}

#[test]
fn initial_mint_rejects_nonempty_pre_state() {
    let mut tx = initial_tx(50, 50, 50);
    tx.inputs[0] = snapshot_rec(1, 0, 0);
    tx.inputs[1] = reserve_rec(1, 0);
    assert_eq!(validate(&tx), Err(Error::InvalidInfoInData));
}

#[test]
fn initial_mint_rejects_capacity_below_reserve() {
    let mut tx = initial_tx(50, 50, 50);
    tx.inputs[3].capacity = SUDT_CAPACITY - 1;
    assert_eq!(validate(&tx), Err(Error::InvalidCKBAmount));
}

#[test]
fn initial_mint_direct_call_updates_accumulator() {
    let tx = initial_tx(50, 50, 50);
    let mut ckb = 0u128;
    let mut sudt = 0u128;
    let mut liq = 0u128;
    assert_eq!(verify_initial_mint(&tx, &lth(), &mut ckb, &mut sudt, &mut liq), Ok(()));
    assert_eq!((ckb, sudt, liq), (50, 50, 50));
}

#[test]
fn swap_native_to_token_unique_price() {
    // reserves (100, 100), fee 997/1000, 70 paid in: 69 = floor(224*997*100 /
    // (100*1000 + 997*224)), so exactly 70 must be paid for 224 out.
    assert_eq!(validate(&swap_ckb_to_sudt_tx(70, 224, 200)), Ok(()));
}

#[test]
fn swap_native_to_token_rejects_deviation() {
    assert_eq!(validate(&swap_ckb_to_sudt_tx(70, 223, 200)), Err(Error::SellSUDTFailed));
    assert_eq!(validate(&swap_ckb_to_sudt_tx(70, 235, 200)), Err(Error::SellSUDTFailed));
}

#[test]
fn swap_native_to_token_slippage_floor() {
    assert_eq!(validate(&swap_ckb_to_sudt_tx(70, 224, 300)), Err(Error::SwapAmountLessThanMin));
}

#[test]
fn swap_rejects_empty_payment() {
    let mut tx = swap_ckb_to_sudt_tx(70, 224, 200);
    tx.inputs[3].capacity = SUDT_CAPACITY;
    assert_eq!(validate(&tx), Err(Error::RequestCapcityEqSUDTCapcity));
}

#[test]
fn swap_rejects_wrong_output_class() {
    let mut tx = swap_ckb_to_sudt_tx(70, 224, 200);
    tx.outputs[3].type_script = Some(script(&[6u8; 20], &[5u8; 31], vec![]));
    assert_eq!(validate(&tx), Err(Error::InvalidOutputTypeHash));
}

#[test]
fn swap_rejects_wrong_change_capacity() {
    let mut tx = swap_ckb_to_sudt_tx(70, 224, 200);
    tx.outputs[3].capacity = SUDT_CAPACITY + 1;
    assert_eq!(validate(&tx), Err(Error::InvalidSwapOutputCapacity));
}

#[test]
fn swap_rejects_wrong_owner() {
    let mut tx = swap_ckb_to_sudt_tx(70, 224, 200);
    tx.outputs[3].lock = plain_lock(&[99u8; 32], vec![]);
    assert_eq!(validate(&tx), Err(Error::InvalidOutputLockHash));
}

#[test]
fn swap_token_to_native_unique_price() {
    // reserves (1000, 1000): 90 = floor(100*997*1000 / (1000*1000 + 997*100)),
    // so exactly 91 tokens buy 100 native units.
    assert_eq!(validate(&swap_sudt_to_ckb_tx(91, 100, 50)), Ok(()));
}

#[test]
fn swap_token_to_native_rejects_deviation() {
    assert_eq!(validate(&swap_sudt_to_ckb_tx(92, 100, 50)), Err(Error::BuySUDTFailed));
    assert_eq!(validate(&swap_sudt_to_ckb_tx(90, 100, 50)), Err(Error::BuySUDTFailed));
}

#[test]
fn swap_token_to_native_rejects_zero_payment() {
    assert_eq!(validate(&swap_sudt_to_ckb_tx(0, 100, 50)), Err(Error::SwapInputSUDTAmountEqZero));
}

#[test]
fn swap_token_to_native_rejects_tagged_output() {
    let mut tx = swap_sudt_to_ckb_tx(91, 100, 50);
    tx.outputs[3].type_script = Some(script(&[6u8; 20], &[5u8; 32], vec![]));
    assert_eq!(validate(&tx), Err(Error::InvalidOutputTypeHash));
}

#[test]
fn swap_token_to_native_rejects_output_payload() {
    let mut tx = swap_sudt_to_ckb_tx(91, 100, 50);
    tx.outputs[3].data = vec![0u8];
    assert_eq!(validate(&tx), Err(Error::InvalidSwapOutputData));
}

#[test]
fn swap_token_to_native_slippage_floor() {
    assert_eq!(validate(&swap_sudt_to_ckb_tx(91, 100, 101)), Err(Error::InvalidSwapOutputCapacity));
}

#[test]
fn burn_pays_biased_proportional_share() {
    // reserves (1000, 2000), issued 100; burning 10 must pay exactly
    // floor(1000*10/100)+1 = 101 native and floor(2000*10/100)+1 = 201 token.
    let mut tx = burn_tx(10, 50, 100, 101, 201);
    set_final(&mut tx, 899, 1799, 90);
    assert_eq!(validate(&tx), Ok(()));
}

#[test]
fn burn_rejects_wrong_payout() {
    let mut tx = burn_tx(10, 50, 100, 102, 201);
    set_final(&mut tx, 898, 1799, 90);
    assert_eq!(validate(&tx), Err(Error::CKBGotAmountDiff));
    let mut tx = burn_tx(10, 50, 100, 101, 202);
    set_final(&mut tx, 899, 1798, 90);
    assert_eq!(validate(&tx), Err(Error::SUDTGotAmountDiff));
}

#[test]
fn burn_below_native_minimum_is_slippage() {
    // The true proportional payout is 101; a floor of 500 must reject, never
    // silently clamp.
    let mut tx = burn_tx(10, 500, 100, 101, 201);
    set_final(&mut tx, 899, 1799, 90);
    assert_eq!(validate(&tx), Err(Error::InvalidMinCkbGot));
}

#[test]
fn burn_zero_native_minimum_is_rejected() {
    let mut tx = burn_tx(10, 0, 100, 101, 201);
    set_final(&mut tx, 899, 1799, 90);
    assert_eq!(validate(&tx), Err(Error::InvalidMinCkbGot));
}

#[test]
fn burn_below_token_minimum_is_slippage() {
    let mut tx = burn_tx(10, 50, 300, 101, 201);
    set_final(&mut tx, 899, 1799, 90);
    assert_eq!(validate(&tx), Err(Error::InvalidMinSUDTGot));
}

#[test]
fn burn_rejects_zero_amount() {
    let mut tx = burn_tx(0, 50, 100, 101, 201);
    set_final(&mut tx, 899, 1799, 90);
    assert_eq!(validate(&tx), Err(Error::BurnLiquidityFailed));
}

#[test]
fn burn_rejects_short_token_payload() {
    let mut tx = burn_tx(10, 50, 100, 101, 201);
    tx.outputs[3].data = vec![0u8; 8];
    set_final(&mut tx, 899, 1799, 90);
    assert_eq!(validate(&tx), Err(Error::SUDTCellDataLenTooShort));
}

#[test]
fn burn_rejects_payload_on_native_payout() {
    let mut tx = burn_tx(10, 50, 100, 101, 201);
    tx.outputs[4].data = vec![0u8];
    set_final(&mut tx, 899, 1799, 90);
    assert_eq!(validate(&tx), Err(Error::CKBCellDataIsNotEmpty));
}

#[test]
fn burn_rejects_foreign_payout_owner() {
    let mut tx = burn_tx(10, 50, 100, 101, 201);
    tx.outputs[3].lock = plain_lock(&[99u8; 32], vec![]);
    set_final(&mut tx, 899, 1799, 90);
    assert_eq!(validate(&tx), Err(Error::AddLiquiditySUDTOutLockHashMismatch));
    let mut tx = burn_tx(10, 50, 100, 101, 201);
    tx.outputs[4].lock = plain_lock(&[99u8; 32], vec![]);
    set_final(&mut tx, 899, 1799, 90);
    assert_eq!(validate(&tx), Err(Error::AddLiquidityCkbOutLockHashMismatch));
}

#[test]
fn burn_rejects_wrong_payout_class() {
    let mut tx = burn_tx(10, 50, 100, 101, 201);
    tx.outputs[3].type_script = Some(script(&[6u8; 20], &lth(), vec![]));
    set_final(&mut tx, 899, 1799, 90);
    assert_eq!(validate(&tx), Err(Error::SUDTTypeHashMismatch));
}

#[test]
fn mint_native_change_biased_ratio() {
    // reserves (1000, 500), issued 100; injecting 50 tokens requires exactly
    // floor(50*1000/500)+1 = 101 native in and mints floor(50*100/500)+1 = 11.
    assert_eq!(validate(&mint_a_tx(11, 100)), Ok(()));
}

#[test]
fn mint_native_change_rejects_wrong_liquidity() {
    assert_eq!(validate(&mint_a_tx(12, 100)), Err(Error::SUDTInjectAmountDiff));
    assert_eq!(validate(&mint_a_tx(10, 100)), Err(Error::SUDTInjectAmountDiff));
}

#[test]
fn mint_native_change_minimum_floor() {
    assert_eq!(validate(&mint_a_tx(11, 0)), Err(Error::InvalidMinCkbInject));
    assert_eq!(validate(&mint_a_tx(11, 200)), Err(Error::InvalidMinCkbInject));
}

#[test]
fn mint_native_change_rejects_wrong_injection() {
    let mut tx = mint_a_tx(11, 100);
    tx.inputs[3].capacity += 1;
    assert_eq!(validate(&tx), Err(Error::LiquidityPoolTokenDiff));
}

#[test]
fn mint_rejects_tagged_change_record() {
    let mut tx = mint_a_tx(11, 100);
    tx.outputs[4].type_script = Some(script(&[6u8; 20], &pth(), vec![]));
    assert_eq!(validate(&tx), Err(Error::InvalidChangeCell));
}

#[test]
fn mint_rejects_short_change_payload() {
    let mut tx = mint_a_tx(11, 100);
    tx.outputs[4].data = vec![0u8; 5];
    assert_eq!(validate(&tx), Err(Error::InvalidChangeCell));
}

#[test]
fn mint_token_change_biased_ratio() {
    // reserves (1000, 500), issued 100; injecting 200 native requires exactly
    // floor(200*500/1000)+1 = 101 tokens kept and mints floor(200*100/1000)+1
    // = 21; the change record returns 300-101 = 199 tokens.
    assert_eq!(validate(&mint_b_tx(21, 50)), Ok(()));
}

#[test]
fn mint_token_change_rejects_wrong_liquidity() {
    assert_eq!(validate(&mint_b_tx(22, 50)), Err(Error::CKBInjectAmountDiff));
}

#[test]
fn mint_token_change_minimum_floor() {
    assert_eq!(validate(&mint_b_tx(21, 0)), Err(Error::InvalidMinSUDTInject));
    assert_eq!(validate(&mint_b_tx(21, 150)), Err(Error::InvalidMinSUDTInject));
}

#[test]
fn mint_token_change_rejects_wrong_change_class() {
    let mut tx = mint_b_tx(21, 50);
    tx.outputs[4].type_script = Some(script(&[6u8; 20], &lth(), vec![]));
    assert_eq!(validate(&tx), Err(Error::SUDTTypeHashMismatch));
}

#[test]
fn mint_rejects_wrong_result_class() {
    let mut tx = mint_a_tx(11, 100);
    tx.outputs[3].type_script = Some(script(&[6u8; 20], &pth(), vec![]));
    assert_eq!(validate(&tx), Err(Error::LiquiditySUDTTypeHashMismatch));
}

#[test]
fn mint_rejects_foreign_result_owner() {
    let mut tx = mint_a_tx(11, 100);
    tx.outputs[3].lock = plain_lock(&[99u8; 32], vec![]);
    assert_eq!(validate(&tx), Err(Error::LiquidityArgsUserLockHashMismatch));
}

#[test]
fn liquidity_order_version_must_match() {
    let mut tx = mint_a_tx(11, 100);
    tx.inputs[3].lock.args = liq_args(2, 100, 0, &ith());
    assert_eq!(validate(&tx), Err(Error::VersionDiff));
}

#[test]
fn liquidity_order_must_link_this_pool() {
    let mut tx = mint_a_tx(11, 100);
    tx.inputs[3].lock.args = liq_args(1, 100, 0, &[9u8; 20]);
    assert_eq!(validate(&tx), Err(Error::LiquidityArgsInfoTypeHashMismatch));
}

#[test]
fn liquidity_order_unknown_class_is_fatal() {
    let mut tx = mint_a_tx(11, 100);
    tx.inputs[3].type_script = Some(script(&[6u8; 20], &[77u8; 20], vec![]));
    assert_eq!(validate(&tx), Err(Error::UnknownLiquidity));
}

#[test]
fn liquidity_order_without_class_is_fatal() {
    let mut tx = mint_a_tx(11, 100);
    tx.inputs[3].type_script = None;
    assert_eq!(validate(&tx), Err(Error::MissingTypeScript));
}

#[test]
fn liquidity_order_malformed_args_is_fatal() {
    let mut tx = mint_a_tx(11, 100);
    tx.inputs[3].lock.args = vec![0u8; 85];
    assert_eq!(validate(&tx), Err(Error::Encoding));
}

#[test]
fn batch_swap_then_burn_settles_sequentially() {
    // The burn is priced against the reserves the swap already moved:
    // (1000, 1000) -> swap 70 native for 75 tokens -> (930, 1075), then
    // burning 10 of 100 pays floor(930*10/100)+1 = 94 native and
    // floor(1075*10/100)+1 = 108 tokens.
    let mut tx = steady(1000, 1000, 100, 1);
    tx.inputs.push(rec(
        SUDT_CAPACITY + 70,
        vec![],
        None,
        plain_lock(&[14u8; 32], swap_args(1, 1, &[5u8; 32])),
    ));
    tx.inputs.push(rec(
        200,
        10u128.to_le_bytes().to_vec(),
        Some(script(&[6u8; 20], &lth(), vec![])),
        plain_lock(&[14u8; 32], liq_args(1, 1, 1, &ith())),
    ));
    tx.outputs.push(rec(
        SUDT_CAPACITY,
        75u128.to_le_bytes().to_vec(),
        Some(script(&[6u8; 20], &[5u8; 32], vec![])),
        plain_lock(&user(), vec![]),
    ));
    tx.outputs.push(rec(
        200,
        108u128.to_le_bytes().to_vec(),
        Some(script(&[6u8; 20], &pth(), vec![])),
        plain_lock(&user(), vec![]),
    ));
    tx.outputs.push(rec(94, vec![], None, plain_lock(&user(), vec![])));
    set_final(&mut tx, 836, 967, 90);
    assert_eq!(validate(&tx), Ok(()));
}

#[test]
fn mint_rejects_empty_token_reserve() {
    // A crafted snapshot with issued liquidity but an empty token reserve
    // must fail before the ratio is ever divided.
    let mut tx = steady(1000, 0, 100, 0);
    tx.inputs.push(rec(
        SUDT_CAPACITY + 1000 + 101,
        50u128.to_le_bytes().to_vec(),
        Some(script(&[6u8; 20], &pth(), vec![])),
        plain_lock(&[14u8; 32], liq_args(1, 100, 0, &ith())),
    ));
    tx.outputs.push(rec(
        SUDT_CAPACITY,
        11u128.to_le_bytes().to_vec(),
        Some(script(&[6u8; 20], &lth(), vec![])),
        plain_lock(&user(), vec![]),
    ));
    tx.outputs.push(rec(1000, vec![], None, plain_lock(&user(), vec![])));
    assert_eq!(validate(&tx), Err(Error::InvalidInfoData));
}

#[test]
fn mint_rejects_zero_injection() {
    let mut tx = mint_a_tx(11, 100);
    tx.inputs[3].data = 0u128.to_le_bytes().to_vec();
    assert_eq!(validate(&tx), Err(Error::InjectAmountEqZero));
}

#[test]
fn burn_cannot_drain_reserve() {
    // Burning all issued liquidity would owe floor(1000*100/100)+1 = 1001
    // native from a reserve of 1000: the biased payout can never be covered.
    let mut tx = burn_tx(100, 1, 1, 1001, 2001);
    set_final(&mut tx, 0, 0, 0);
    assert_eq!(validate(&tx), Err(Error::InvalidCKBReserve));
}

#[test]
fn rejection_is_idempotent() {
    let tx = swap_ckb_to_sudt_tx(70, 223, 200);
    let first = validate(&tx);
    let second = validate(&tx);
    assert_eq!(first, Err(Error::SellSUDTFailed));
    assert_eq!(first, second);
}

#[test]
fn bootstrap_accepts_bound_pair() {
    assert_eq!(validate(&bootstrap_tx()), Ok(()));
}

#[test]
fn bootstrap_rejects_failed_uniqueness_commitment() {
    let tx = bootstrap_tx();
    assert_eq!(validate_transition(&tx, &itch(), &ilch(), false), Err(Error::InvalidTypeID));
}

#[test]
fn bootstrap_rejects_unbound_front_half() {
    let mut tx = bootstrap_tx();
    tx.outputs[0].lock.args[0] ^= 1;
    assert_eq!(validate(&tx), Err(Error::InfoLockArgsFrontHalfMismatch));
}

#[test]
fn bootstrap_rejects_unbound_second_half() {
    let mut tx = bootstrap_tx();
    tx.outputs[0].lock.args[40] ^= 1;
    assert_eq!(validate(&tx), Err(Error::InfoLockArgsSecondHalfMismatch));
}

#[test]
fn bootstrap_rejects_short_args() {
    let mut tx = bootstrap_tx();
    tx.outputs[0].lock.args.truncate(40);
    assert_eq!(validate(&tx), Err(Error::LengthNotEnough));
}

#[test]
fn bootstrap_rejects_extra_lock_holder() {
    let mut tx = bootstrap_tx();
    let mut extra = carrier_rec();
    extra.lock.code_hash = ilch();
    tx.outputs.push(extra);
    assert_eq!(validate(&tx), Err(Error::InvalidInfoLockCountInOutput));
}

#[test]
fn bootstrap_rejects_split_pair() {
    let mut tx = bootstrap_tx();
    tx.outputs[1].lock.hash = vec![16u8; 32];
    assert_eq!(validate(&tx), Err(Error::InfoCreationCellLockHashMismatch));
}

#[test]
fn bootstrap_rejects_short_reserve_payload() {
    let mut tx = bootstrap_tx();
    tx.outputs[1].data = vec![0u8; 8];
    assert_eq!(validate(&tx), Err(Error::CellDataLenTooShort));
}

#[test]
fn bootstrap_rejects_untagged_reserve() {
    let mut tx = bootstrap_tx();
    tx.outputs[1].type_script = None;
    assert_eq!(validate(&tx), Err(Error::MissingTypeScript));
}

#[test]
fn binding_prefix_is_a_digest() {
    let p = info_lock_args_prefix(&pth());
    assert_eq!(p.len(), 32);
    let q = info_lock_args_prefix(&vec![5u8; 20]);
    assert_ne!(p, q);
    let mut preimage = b"ckb".to_vec();
    preimage.extend_from_slice(&pth());
    assert_ne!(p, preimage);
}

#[test]
fn rejects_two_pools() {
    let mut tx = burn_tx(10, 50, 100, 101, 201);
    set_final(&mut tx, 899, 1799, 90);
    tx.inputs.push(snapshot_rec(1000, 2000, 100));
    assert_eq!(validate(&tx), Err(Error::MoreThanOneLiquidityPool));
}

#[test]
fn rejects_reserve_record_out_of_step() {
    let mut tx = burn_tx(10, 50, 100, 101, 201);
    set_final(&mut tx, 899, 1799, 90);
    tx.inputs[1].capacity += 1;
    assert_eq!(validate(&tx), Err(Error::CKBReserveAmountDiff));
    let mut tx = burn_tx(10, 50, 100, 101, 201);
    set_final(&mut tx, 899, 1799, 90);
    tx.inputs[1].data = 1999u128.to_le_bytes().to_vec();
    assert_eq!(validate(&tx), Err(Error::SUDTReserveAmountDiff));
}

#[test]
fn rejects_missing_witness() {
    let mut tx = burn_tx(10, 50, 100, 101, 201);
    set_final(&mut tx, 899, 1799, 90);
    tx.witness = None;
    assert_eq!(validate(&tx), Err(Error::ItemMissing));
    let mut tx = burn_tx(10, 50, 100, 101, 201);
    set_final(&mut tx, 899, 1799, 90);
    tx.witness = Some(vec![0u8; 7]);
    assert_eq!(validate(&tx), Err(Error::Encoding));
}

#[test]
fn rejects_uncommitted_accumulator() {
    let mut tx = burn_tx(10, 50, 100, 101, 201);
    set_final(&mut tx, 899, 1799, 90);
    tx.outputs[0].data = info_data(898, 1799, 90);
    assert_eq!(validate(&tx), Err(Error::InvalidCKBReserve));
    let mut tx = burn_tx(10, 50, 100, 101, 201);
    set_final(&mut tx, 899, 1799, 90);
    tx.outputs[0].data = info_data(899, 1800, 90);
    assert_eq!(validate(&tx), Err(Error::InvalidSUDTReserve));
    let mut tx = burn_tx(10, 50, 100, 101, 201);
    set_final(&mut tx, 899, 1799, 90);
    tx.outputs[0].data = info_data(899, 1799, 91);
    assert_eq!(validate(&tx), Err(Error::InvalidTotalLiquidity));
}

#[test]
fn rejects_reserve_record_not_mirroring_result() {
    let mut tx = burn_tx(10, 50, 100, 101, 201);
    set_final(&mut tx, 899, 1799, 90);
    tx.outputs[1].capacity += 1;
    assert_eq!(validate(&tx), Err(Error::InvalidOutputPoolCapacity));
    let mut tx = burn_tx(10, 50, 100, 101, 201);
    set_final(&mut tx, 899, 1799, 90);
    tx.outputs[1].data = 1798u128.to_le_bytes().to_vec();
    assert_eq!(validate(&tx), Err(Error::InvalidPoolOutputData));
}

#[test]
fn rejects_truncated_transition() {
    let mut tx = burn_tx(10, 50, 100, 101, 201);
    set_final(&mut tx, 899, 1799, 90);
    tx.inputs.truncate(1);
    assert_eq!(validate(&tx), Err(Error::IndexOutOfBound));
}

#[test]
fn swap_count_beyond_inputs_is_rejected() {
    let mut tx = swap_ckb_to_sudt_tx(70, 224, 200);
    tx.witness = Some(2u64.to_le_bytes().to_vec());
    assert_eq!(validate(&tx), Err(Error::IndexOutOfBound));
}
