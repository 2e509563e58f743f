//! A stand-in DEX router for exercising swaps: it quotes and swaps at a
//! configured output, and can be told to fail.
use vstd::prelude::*;

use crate::text::Address;

verus! {

/// Why the stand-in router refuses a swap.
#[derive(Clone, Copy, Debug, PartialEq, Eq, Structural)]
pub enum MockDexError {
    SwapFailed,
    InvalidPath,
    InsufficientOutput,
}

/// The router's configuration: the output every swap yields, and whether
/// swaps fail (each unset until configured).
#[derive(Clone, Copy, Debug, PartialEq, Eq, Structural)]
pub struct MockDexRouter {
    pub output: Option<i128>,
    pub fail_swap: Option<bool>,
}

/// What `get_amounts_out` quotes for `amount_in` along a path of
/// `path_len` tokens.
pub open spec fn quoted_amounts(router: MockDexRouter, amount_in: i128, path_len: nat) -> Seq<i128> {
    if path_len < 2 {
        Seq::empty()
    } else {
        match router.output {
            Some(out) => seq![amount_in, out],
            None => seq![amount_in, amount_in],
        }
    }
}

/// What a swap of `amount_in` needing at least `amount_out_min` along a
/// path of `path_len` tokens returns.
pub open spec fn swap_result(
    router: MockDexRouter,
    amount_in: i128,
    amount_out_min: i128,
    path_len: nat,
) -> Result<Seq<i128>, MockDexError> {
    if path_len < 2 {
        Err(MockDexError::InvalidPath)
    } else if router.fail_swap == Some(true) {
        Err(MockDexError::SwapFailed)
    } else {
        match router.output {
            Some(out) => if out < amount_out_min {
                Err(MockDexError::InsufficientOutput)
            } else {
                Ok(seq![amount_in, out])
            },
            None => Err(MockDexError::SwapFailed),
        }
    }
}

impl MockDexRouter {
    /// A router with nothing configured.
    pub fn new() -> (r: Self)
        ensures
            r.output is None,
            r.fail_swap is None,
    {
        MockDexRouter { output: None, fail_swap: None }
    }

    /// The amounts along `path` for `amount_in`: the input and the
    /// configured output (the input itself when no output is set); nothing
    /// for a path of fewer than two tokens.
    pub fn get_amounts_out(&self, amount_in: i128, path: &Vec<Address>) -> (amounts: Vec<i128>)
        ensures
            amounts@ == quoted_amounts(*self, amount_in, path@.len()),
    {
        let mut amounts: Vec<i128> = Vec::new();
        if path.len() < 2 {
            return amounts;
        }
        amounts.push(amount_in);
        match self.output {
            Some(out) => amounts.push(out),
            None => amounts.push(amount_in),
        }
        assert(amounts@ =~= quoted_amounts(*self, amount_in, path@.len()));
        amounts
    }

    /// Swaps `amount_in` along `path`, yielding the configured output if it
    /// is at least `amount_out_min`.
    pub fn swap_exact_tokens_for_tokens(
        &self,
        amount_in: i128,
        amount_out_min: i128,
        path: &Vec<Address>,
        _to: &Address,
        _deadline: u64,
    ) -> (r: Result<Vec<i128>, MockDexError>)
        ensures
            match (r, swap_result(*self, amount_in, amount_out_min, path@.len())) {
                (Ok(v), Ok(s)) => v@ == s,
                (Err(e), Err(f)) => e == f,
                _ => false,
            },
    {
        if path.len() < 2 {
            return Err(MockDexError::InvalidPath);
        }
        if let Some(true) = self.fail_swap {
            return Err(MockDexError::SwapFailed);
        }
        match self.output {
            Some(out) => {
                if out < amount_out_min {
                    return Err(MockDexError::InsufficientOutput);
                }
                let amounts = vec![amount_in, out];
                assert(amounts@ =~= seq![amount_in, out]);
                Ok(amounts)
            },
            None => Err(MockDexError::SwapFailed),
        }
    }
}

/// Sets the router's output and whether its swaps fail.
pub fn configure_mock_dex(router: &mut MockDexRouter, output: i128, fail_swap: bool)
    ensures
        final(router).output == Some(output),
        final(router).fail_swap == Some(fail_swap),
{
    router.output = Some(output);
    router.fail_swap = Some(fail_swap);
}

} // verus!
