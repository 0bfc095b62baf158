//! Decisions of the on-chain transaction manager: handing out nonces,
//! gas fees for a transaction, and the retry schedule of transactions whose
//! submission failed.
use vstd::prelude::*;

verus! {

/// The next nonce to hand out.
pub struct NonceCounter {
    pub next: u64,
}

impl NonceCounter {
    pub fn new(start: u64) -> (r: NonceCounter)
        ensures
            r.next == start,
    {
        NonceCounter { next: start }
    }

    /// Hands out the next nonce and moves past it (wrapping at the top of
    /// the range, as an atomic add does).
    pub fn get_and_increment_nonce(&mut self) -> (r: u64)
        ensures
            r == old(self).next,
            final(self).next == (if old(self).next == u64::MAX {
                0
            } else {
                old(self).next + 1
            }),
    {
        let r = self.next;
        self.next = if self.next == u64::MAX {
            0
        } else {
            self.next + 1
        };
        r
    }
}

/// Nonces handed out one after another are consecutive: `k` calls from
/// `start` hand out `start, start + 1, ..., start + k - 1` and leave the
/// counter at `start + k`, as long as no wrap occurs.
pub proof fn law_nonces_consecutive(start: u64, k: nat)
    requires
        start + k <= u64::MAX,
    ensures
        forall|i: nat| i < k ==> #[trigger] nonce_after(start, i) == start + i,
        nonce_after(start, k) == start + k,
    decreases k,
{
    if k > 0 {
        law_nonces_consecutive(start, (k - 1) as nat);
    }
}

/// The counter after `i` hand-outs from `start`.
pub open spec fn nonce_after(start: u64, i: nat) -> u64
    decreases i,
{
    if i == 0 {
        start
    } else {
        let p = nonce_after(start, (i - 1) as nat);
        if p == u64::MAX {
            0
        } else {
            (p + 1) as u64
        }
    }
}

/// The priority fee offered per unit of gas: 30 gwei.
pub const MAX_PRIORITY_FEE_WEI: u128 = 30_000_000_000u128;

/// The gas limit given to every transaction.
pub const GAS_LIMIT: u64 = 500_000u64;

/// The fees of a transaction at base fee `base_fee` (wei per gas): the
/// maximum fee is twice the base fee plus the priority fee; `None` where
/// that overflows 128 bits.
pub fn gas_fees(base_fee: u128) -> (r: Option<(u128, u128)>)
    ensures
        match r {
            Some((max_fee, prio)) => max_fee == 2 * base_fee + MAX_PRIORITY_FEE_WEI && prio
                == MAX_PRIORITY_FEE_WEI,
            None => 2 * base_fee + MAX_PRIORITY_FEE_WEI > u128::MAX,
        },
{
    let doubled = base_fee.checked_mul(2)?;
    let max_fee = doubled.checked_add(MAX_PRIORITY_FEE_WEI)?;
    Some((max_fee, MAX_PRIORITY_FEE_WEI))
}

/// How failed submissions are retried.
#[derive(Clone, Copy, Debug, PartialEq, Eq, Structural)]
pub struct RetryConfig {
    pub max_retries: u32,
    pub base_delay_ms: u64,
    pub max_delay_ms: u64,
}

impl RetryConfig {
    /// The delays stay within 64 bits for every retry made.
    pub open spec fn wf(&self) -> bool {
        &&& self.max_retries <= 32
        &&& self.base_delay_ms <= u32::MAX
    }
}

impl Default for RetryConfig {
    /// Three retries, from one second, at most thirty seconds apart.
    fn default() -> (r: RetryConfig)
        ensures
            r.max_retries == 3 && r.base_delay_ms == 1000 && r.max_delay_ms == 30_000,
    {
        RetryConfig { max_retries: 3, base_delay_ms: 1000, max_delay_ms: 30_000 }
    }
}

/// The retry state of a transaction waiting to be resubmitted.
#[derive(Clone, Copy, Debug, PartialEq, Eq, Structural)]
pub struct RetryState {
    pub retry_count: u32,
    pub last_gas_bump_block: Option<u64>,
}

/// What the retry pass does with one waiting transaction.
#[derive(Clone, Copy, Debug, PartialEq, Eq, Structural)]
pub enum RetryAction {
    /// Out of retries: forget the transaction.
    Drop,
    /// Not yet due.
    Wait,
    /// Submit it again.
    Resend,
}

/// `2^k`.
pub open spec fn pow2(k: nat) -> nat
    decreases k,
{
    if k == 0 {
        1
    } else {
        2 * pow2((k - 1) as nat)
    }
}

/// The wait before retry number `retry_count`: the base delay doubled per
/// retry so far, capped at the maximum.
pub open spec fn retry_delay(cfg: RetryConfig, retry_count: u32) -> int {
    let d = cfg.base_delay_ms * pow2(retry_count as nat);
    if d < cfg.max_delay_ms {
        d
    } else {
        cfg.max_delay_ms as int
    }
}

/// Whether the gas price is bumped at `block`: two blocks after the last
/// bump, or from block 2 where there was none.
pub open spec fn gas_bump_due(last: Option<u64>, block: u64) -> bool {
    match last {
        Some(b) => block >= b + 2,
        None => block >= 2,
    }
}

proof fn lemma_pow2_mono(a: nat, b: nat)
    requires
        a <= b,
    ensures
        1 <= pow2(a) <= pow2(b),
    decreases b,
{
    if b > a {
        lemma_pow2_mono(a, (b - 1) as nat);
    } else {
        lemma_pow2_pos(a);
    }
}

proof fn lemma_pow2_pos(k: nat)
    ensures
        1 <= pow2(k),
    decreases k,
{
    if k > 0 {
        lemma_pow2_pos((k - 1) as nat);
    }
}

proof fn lemma_pow2_bound(k: nat)
    requires
        k <= 32,
    ensures
        1 <= pow2(k) <= 0x1_0000_0000,
{
    reveal_with_fuel(pow2, 33);
    assert(pow2(32) == 0x1_0000_0000);
    lemma_pow2_mono(k, 32);
}

fn shifted_delay(base: u64, k: u32) -> (r: u64)
    requires
        k < 32,
        base <= u32::MAX,
    ensures
        r == base * pow2(k as nat),
{
    let mut d: u64 = base;
    let mut i: u32 = 0;
    assert(pow2(0) == 1);
    while i < k
        invariant
            i <= k < 32,
            base <= u32::MAX,
            d == base * pow2(i as nat),
        decreases k - i,
    {
        proof {
            lemma_pow2_bound(i as nat);
            lemma_pow2_bound((i + 1) as nat);
            assert(base * pow2((i + 1) as nat) == 2 * (base * pow2(i as nat))) by (nonlinear_arith);
            assert(base * pow2((i + 1) as nat) <= 0xffff_ffff * 0x1_0000_0000) by (nonlinear_arith)
                requires
                    base <= 0xffff_ffff,
                    pow2((i + 1) as nat) <= 0x1_0000_0000,
            ;
        }
        d = d * 2;
        i = i + 1;
    }
    d
}

/// What one step of the retry pass decides for a waiting transaction in
/// state `st`, at block `block`, `elapsed_ms` after its last submission.
pub open spec fn retry_step_spec(cfg: RetryConfig, st: RetryState, block: u64, elapsed_ms: u64) -> (
    RetryAction,
    RetryState,
) {
    if st.retry_count >= cfg.max_retries {
        (RetryAction::Drop, st)
    } else {
        let st2 = RetryState {
            retry_count: st.retry_count,
            last_gas_bump_block: if gas_bump_due(st.last_gas_bump_block, block) {
                Some(block)
            } else {
                st.last_gas_bump_block
            },
        };
        if elapsed_ms >= retry_delay(cfg, st.retry_count) {
            (RetryAction::Resend, st2)
        } else {
            (RetryAction::Wait, st2)
        }
    }
}

/// The state after a resend from `st`: gone where it went through, one more
/// retry counted where it failed.
pub open spec fn after_resend_spec(st: RetryState, succeeded: bool) -> Option<RetryState> {
    if succeeded {
        None
    } else {
        Some(
            RetryState { retry_count: (st.retry_count + 1) as u32, last_gas_bump_block: st.last_gas_bump_block },
        )
    }
}

/// One pass of the retry loop over a transaction in state `s` (`None`: no
/// longer waiting).  The pass is `(block, elapsed_ms, succeeded)`: the block
/// number, the time since the last submission, and whether a resend made in
/// this pass goes through.
pub open spec fn retry_pass(cfg: RetryConfig, s: Option<RetryState>, p: (u64, u64, bool)) -> Option<
    RetryState,
> {
    match s {
        None => None,
        Some(st) => {
            let (a, st2) = retry_step_spec(cfg, st, p.0, p.1);
            match a {
                RetryAction::Drop => None,
                RetryAction::Wait => Some(st2),
                RetryAction::Resend => after_resend_spec(st2, p.2),
            }
        },
    }
}

/// Whether the pass `p` resends a transaction in state `s`.
pub open spec fn resends_in_pass(cfg: RetryConfig, s: Option<RetryState>, p: (u64, u64, bool)) -> bool {
    s matches Some(st) && retry_step_spec(cfg, st, p.0, p.1).0 == RetryAction::Resend
}

/// The state of a transaction after the passes `ps`, from state `s`.
pub open spec fn retry_run(cfg: RetryConfig, s: Option<RetryState>, ps: Seq<(u64, u64, bool)>) -> Option<
    RetryState,
>
    decreases ps.len(),
{
    if ps.len() == 0 {
        s
    } else {
        retry_pass(cfg, retry_run(cfg, s, ps.drop_last()), ps.last())
    }
}

/// The resends made over the passes `ps` from state `s`, in order: for each,
/// the retry count it was made at and the time since the last submission.
pub open spec fn retry_resends(cfg: RetryConfig, s: Option<RetryState>, ps: Seq<(u64, u64, bool)>) -> Seq<
    (u32, u64),
>
    decreases ps.len(),
{
    if ps.len() == 0 {
        Seq::empty()
    } else {
        let before = retry_run(cfg, s, ps.drop_last());
        let prev = retry_resends(cfg, s, ps.drop_last());
        if resends_in_pass(cfg, before, ps.last()) {
            prev.push((before->0.retry_count, ps.last().1))
        } else {
            prev
        }
    }
}

/// The retry schedule: over any run of passes from retry count `c`, a
/// transaction is resent at most `max_retries - c` times; the `j`-th resend
/// is made at retry count `c + j`, no earlier than the capped doubling delay
/// for that count after the previous submission; and while it still waits,
/// its retry count is `c` plus the number of resends, never above
/// `max_retries`.
pub proof fn law_retry_schedule(cfg: RetryConfig, st: RetryState, ps: Seq<(u64, u64, bool)>)
    requires
        cfg.wf(),
        st.retry_count <= cfg.max_retries,
    ensures
        retry_resends(cfg, Some(st), ps).len() <= cfg.max_retries - st.retry_count,
        forall|j: int|
            0 <= j < retry_resends(cfg, Some(st), ps).len() ==> {
                let e = #[trigger] retry_resends(cfg, Some(st), ps)[j];
                &&& e.0 == st.retry_count + j
                &&& e.1 >= retry_delay(cfg, e.0)
            },
        retry_run(cfg, Some(st), ps) matches Some(s2) ==> s2.retry_count == st.retry_count
            + retry_resends(cfg, Some(st), ps).len() && s2.retry_count <= cfg.max_retries,
    decreases ps.len(),
{
    if ps.len() > 0 {
        law_retry_schedule(cfg, st, ps.drop_last());
        let before = retry_run(cfg, Some(st), ps.drop_last());
        let prev = retry_resends(cfg, Some(st), ps.drop_last());
        if resends_in_pass(cfg, before, ps.last()) {
            let b = before->0;
            assert(b.retry_count < cfg.max_retries);
            assert(retry_resends(cfg, Some(st), ps) =~= prev.push((b.retry_count, ps.last().1)));
        } else {
            assert(retry_resends(cfg, Some(st), ps) =~= prev);
        }
    }
}

/// One step of the retry pass for a waiting transaction at block `block`,
/// `elapsed_ms` after its last submission: drop it once out of retries;
/// otherwise note a gas bump when one is due, and resend once the retry
/// delay has passed.
pub fn retry_step(cfg: RetryConfig, st: RetryState, block: u64, elapsed_ms: u64) -> (r: (
    RetryAction,
    RetryState,
))
    requires
        cfg.wf(),
        st.last_gas_bump_block matches Some(b) ==> b <= u64::MAX - 2,
    ensures
        r == retry_step_spec(cfg, st, block, elapsed_ms),
        st.retry_count >= cfg.max_retries ==> r == (RetryAction::Drop, st),
        st.retry_count < cfg.max_retries ==> {
            &&& r.1.retry_count == st.retry_count
            &&& r.1.last_gas_bump_block == (if gas_bump_due(st.last_gas_bump_block, block) {
                Some(block)
            } else {
                st.last_gas_bump_block
            })
            &&& r.0 == (if elapsed_ms >= retry_delay(cfg, st.retry_count) {
                RetryAction::Resend
            } else {
                RetryAction::Wait
            })
        },
{
    if st.retry_count >= cfg.max_retries {
        return (RetryAction::Drop, st);
    }
    let bump = match st.last_gas_bump_block {
        Some(b) => block >= b + 2,
        None => block >= 2,
    };
    let st2 = if bump {
        RetryState { retry_count: st.retry_count, last_gas_bump_block: Some(block) }
    } else {
        st
    };
    let d = shifted_delay(cfg.base_delay_ms, st.retry_count);
    let delay = if d < cfg.max_delay_ms {
        d
    } else {
        cfg.max_delay_ms
    };
    if elapsed_ms >= delay {
        (RetryAction::Resend, st2)
    } else {
        (RetryAction::Wait, st2)
    }
}

/// The state after a resend: `None` (done) where it went through, one more
/// retry counted where it failed.
pub fn after_resend(cfg: RetryConfig, st: RetryState, succeeded: bool) -> (r: Option<RetryState>)
    requires
        cfg.wf(),
        st.retry_count < cfg.max_retries,
    ensures
        r == after_resend_spec(st, succeeded),
        succeeded ==> r is None,
        !succeeded ==> r == Some(
            RetryState { retry_count: (st.retry_count + 1) as u32, last_gas_bump_block: st.last_gas_bump_block },
        ),
{
    if succeeded {
        None
    } else {
        Some(RetryState { retry_count: st.retry_count + 1, last_gas_bump_block: st.last_gas_bump_block })
    }
}

} // verus!
