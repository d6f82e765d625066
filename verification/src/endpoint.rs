//! The JSON-RPC endpoints that requests are metered by.

use vstd::prelude::*;

verus! {

/// The code of [`RpcEndpoint::Custom`]; every other endpoint has a smaller code.
pub const CUSTOM_CODE: u32 = 59;

/// An endpoint of the Solana JSON-RPC API, as far as rate limits are concerned.
///
/// Every method of the RPC interface has its own variant; `Custom` stands for a method that
/// the interface does not name, and carries its name. The named variants have distinct codes
/// below [`CUSTOM_CODE`] (see [`RpcEndpoint::code`]), which is how limits store them; limits
/// store custom methods by name.
#[derive(Clone, Debug, PartialEq, Eq, Hash)]
pub enum RpcEndpoint {
    DeregisterNode,
    GetAccountInfo,
    GetBalance,
    GetBlock,
    GetBlockHeight,
    GetBlockProduction,
    GetBlocks,
    GetBlocksWithLimit,
    GetBlockTime,
    GetClusterNodes,
    GetEpochInfo,
    GetEpochSchedule,
    GetFeeForMessage,
    GetFirstAvailableBlock,
    GetGenesisHash,
    GetHealth,
    GetIdentity,
    GetInflationGovernor,
    GetInflationRate,
    GetInflationReward,
    GetLargestAccounts,
    GetLatestBlockhash,
    GetLeaderSchedule,
    GetMaxRetransmitSlot,
    GetMaxShredInsertSlot,
    GetMinimumBalanceForRentExemption,
    GetMultipleAccounts,
    GetProgramAccounts,
    GetRecentPerformanceSamples,
    GetHighestSnapshotSlot,
    GetSignaturesForAddress,
    GetSignatureStatuses,
    GetSlot,
    GetSlotLeader,
    GetSlotLeaders,
    GetStorageTurn,
    GetStorageTurnRate,
    GetSlotsPerSegment,
    GetStakeActivation,
    GetStakeMinimumDelegation,
    GetStoragePubkeysForSlot,
    GetSupply,
    GetTokenAccountBalance,
    GetTokenAccountsByDelegate,
    GetTokenAccountsByOwner,
    GetTokenSupply,
    GetTransaction,
    GetTransactionCount,
    GetVersion,
    GetVoteAccounts,
    IsBlockhashValid,
    MinimumLedgerSlot,
    RegisterNode,
    RequestAirdrop,
    SendTransaction,
    SimulateTransaction,
    SignVote,
    GetRecentPrioritizationFees,
    GetTokenLargestAccounts,
    Custom { method: String },
}

impl RpcEndpoint {
    /// The code of an endpoint: its position in the declaration above.
    pub open spec fn spec_code(&self) -> u32 {
        match self {
            RpcEndpoint::DeregisterNode => 0,
            RpcEndpoint::GetAccountInfo => 1,
            RpcEndpoint::GetBalance => 2,
            RpcEndpoint::GetBlock => 3,
            RpcEndpoint::GetBlockHeight => 4,
            RpcEndpoint::GetBlockProduction => 5,
            RpcEndpoint::GetBlocks => 6,
            RpcEndpoint::GetBlocksWithLimit => 7,
            RpcEndpoint::GetBlockTime => 8,
            RpcEndpoint::GetClusterNodes => 9,
            RpcEndpoint::GetEpochInfo => 10,
            RpcEndpoint::GetEpochSchedule => 11,
            RpcEndpoint::GetFeeForMessage => 12,
            RpcEndpoint::GetFirstAvailableBlock => 13,
            RpcEndpoint::GetGenesisHash => 14,
            RpcEndpoint::GetHealth => 15,
            RpcEndpoint::GetIdentity => 16,
            RpcEndpoint::GetInflationGovernor => 17,
            RpcEndpoint::GetInflationRate => 18,
            RpcEndpoint::GetInflationReward => 19,
            RpcEndpoint::GetLargestAccounts => 20,
            RpcEndpoint::GetLatestBlockhash => 21,
            RpcEndpoint::GetLeaderSchedule => 22,
            RpcEndpoint::GetMaxRetransmitSlot => 23,
            RpcEndpoint::GetMaxShredInsertSlot => 24,
            RpcEndpoint::GetMinimumBalanceForRentExemption => 25,
            RpcEndpoint::GetMultipleAccounts => 26,
            RpcEndpoint::GetProgramAccounts => 27,
            RpcEndpoint::GetRecentPerformanceSamples => 28,
            RpcEndpoint::GetHighestSnapshotSlot => 29,
            RpcEndpoint::GetSignaturesForAddress => 30,
            RpcEndpoint::GetSignatureStatuses => 31,
            RpcEndpoint::GetSlot => 32,
            RpcEndpoint::GetSlotLeader => 33,
            RpcEndpoint::GetSlotLeaders => 34,
            RpcEndpoint::GetStorageTurn => 35,
            RpcEndpoint::GetStorageTurnRate => 36,
            RpcEndpoint::GetSlotsPerSegment => 37,
            RpcEndpoint::GetStakeActivation => 38,
            RpcEndpoint::GetStakeMinimumDelegation => 39,
            RpcEndpoint::GetStoragePubkeysForSlot => 40,
            RpcEndpoint::GetSupply => 41,
            RpcEndpoint::GetTokenAccountBalance => 42,
            RpcEndpoint::GetTokenAccountsByDelegate => 43,
            RpcEndpoint::GetTokenAccountsByOwner => 44,
            RpcEndpoint::GetTokenSupply => 45,
            RpcEndpoint::GetTransaction => 46,
            RpcEndpoint::GetTransactionCount => 47,
            RpcEndpoint::GetVersion => 48,
            RpcEndpoint::GetVoteAccounts => 49,
            RpcEndpoint::IsBlockhashValid => 50,
            RpcEndpoint::MinimumLedgerSlot => 51,
            RpcEndpoint::RegisterNode => 52,
            RpcEndpoint::RequestAirdrop => 53,
            RpcEndpoint::SendTransaction => 54,
            RpcEndpoint::SimulateTransaction => 55,
            RpcEndpoint::SignVote => 56,
            RpcEndpoint::GetRecentPrioritizationFees => 57,
            RpcEndpoint::GetTokenLargestAccounts => 58,
            RpcEndpoint::Custom { .. } => CUSTOM_CODE,
        }
    }

    /// The named endpoint that has a given code, if any.
    pub open spec fn from_code(c: u32) -> Option<RpcEndpoint> {
        match c {
            0 => Some(RpcEndpoint::DeregisterNode),
            1 => Some(RpcEndpoint::GetAccountInfo),
            2 => Some(RpcEndpoint::GetBalance),
            3 => Some(RpcEndpoint::GetBlock),
            4 => Some(RpcEndpoint::GetBlockHeight),
            5 => Some(RpcEndpoint::GetBlockProduction),
            6 => Some(RpcEndpoint::GetBlocks),
            7 => Some(RpcEndpoint::GetBlocksWithLimit),
            8 => Some(RpcEndpoint::GetBlockTime),
            9 => Some(RpcEndpoint::GetClusterNodes),
            10 => Some(RpcEndpoint::GetEpochInfo),
            11 => Some(RpcEndpoint::GetEpochSchedule),
            12 => Some(RpcEndpoint::GetFeeForMessage),
            13 => Some(RpcEndpoint::GetFirstAvailableBlock),
            14 => Some(RpcEndpoint::GetGenesisHash),
            15 => Some(RpcEndpoint::GetHealth),
            16 => Some(RpcEndpoint::GetIdentity),
            17 => Some(RpcEndpoint::GetInflationGovernor),
            18 => Some(RpcEndpoint::GetInflationRate),
            19 => Some(RpcEndpoint::GetInflationReward),
            20 => Some(RpcEndpoint::GetLargestAccounts),
            21 => Some(RpcEndpoint::GetLatestBlockhash),
            22 => Some(RpcEndpoint::GetLeaderSchedule),
            23 => Some(RpcEndpoint::GetMaxRetransmitSlot),
            24 => Some(RpcEndpoint::GetMaxShredInsertSlot),
            25 => Some(RpcEndpoint::GetMinimumBalanceForRentExemption),
            26 => Some(RpcEndpoint::GetMultipleAccounts),
            27 => Some(RpcEndpoint::GetProgramAccounts),
            28 => Some(RpcEndpoint::GetRecentPerformanceSamples),
            29 => Some(RpcEndpoint::GetHighestSnapshotSlot),
            30 => Some(RpcEndpoint::GetSignaturesForAddress),
            31 => Some(RpcEndpoint::GetSignatureStatuses),
            32 => Some(RpcEndpoint::GetSlot),
            33 => Some(RpcEndpoint::GetSlotLeader),
            34 => Some(RpcEndpoint::GetSlotLeaders),
            35 => Some(RpcEndpoint::GetStorageTurn),
            36 => Some(RpcEndpoint::GetStorageTurnRate),
            37 => Some(RpcEndpoint::GetSlotsPerSegment),
            38 => Some(RpcEndpoint::GetStakeActivation),
            39 => Some(RpcEndpoint::GetStakeMinimumDelegation),
            40 => Some(RpcEndpoint::GetStoragePubkeysForSlot),
            41 => Some(RpcEndpoint::GetSupply),
            42 => Some(RpcEndpoint::GetTokenAccountBalance),
            43 => Some(RpcEndpoint::GetTokenAccountsByDelegate),
            44 => Some(RpcEndpoint::GetTokenAccountsByOwner),
            45 => Some(RpcEndpoint::GetTokenSupply),
            46 => Some(RpcEndpoint::GetTransaction),
            47 => Some(RpcEndpoint::GetTransactionCount),
            48 => Some(RpcEndpoint::GetVersion),
            49 => Some(RpcEndpoint::GetVoteAccounts),
            50 => Some(RpcEndpoint::IsBlockhashValid),
            51 => Some(RpcEndpoint::MinimumLedgerSlot),
            52 => Some(RpcEndpoint::RegisterNode),
            53 => Some(RpcEndpoint::RequestAirdrop),
            54 => Some(RpcEndpoint::SendTransaction),
            55 => Some(RpcEndpoint::SimulateTransaction),
            56 => Some(RpcEndpoint::SignVote),
            57 => Some(RpcEndpoint::GetRecentPrioritizationFees),
            58 => Some(RpcEndpoint::GetTokenLargestAccounts),
            _ => None,
        }
    }

    /// The numeric code by which limits store this endpoint.
    #[verifier::when_used_as_spec(spec_code)]
    pub fn code(&self) -> (c: u32)
        ensures
            c == self.spec_code(),
    {
        match self {
            RpcEndpoint::DeregisterNode => 0,
            RpcEndpoint::GetAccountInfo => 1,
            RpcEndpoint::GetBalance => 2,
            RpcEndpoint::GetBlock => 3,
            RpcEndpoint::GetBlockHeight => 4,
            RpcEndpoint::GetBlockProduction => 5,
            RpcEndpoint::GetBlocks => 6,
            RpcEndpoint::GetBlocksWithLimit => 7,
            RpcEndpoint::GetBlockTime => 8,
            RpcEndpoint::GetClusterNodes => 9,
            RpcEndpoint::GetEpochInfo => 10,
            RpcEndpoint::GetEpochSchedule => 11,
            RpcEndpoint::GetFeeForMessage => 12,
            RpcEndpoint::GetFirstAvailableBlock => 13,
            RpcEndpoint::GetGenesisHash => 14,
            RpcEndpoint::GetHealth => 15,
            RpcEndpoint::GetIdentity => 16,
            RpcEndpoint::GetInflationGovernor => 17,
            RpcEndpoint::GetInflationRate => 18,
            RpcEndpoint::GetInflationReward => 19,
            RpcEndpoint::GetLargestAccounts => 20,
            RpcEndpoint::GetLatestBlockhash => 21,
            RpcEndpoint::GetLeaderSchedule => 22,
            RpcEndpoint::GetMaxRetransmitSlot => 23,
            RpcEndpoint::GetMaxShredInsertSlot => 24,
            RpcEndpoint::GetMinimumBalanceForRentExemption => 25,
            RpcEndpoint::GetMultipleAccounts => 26,
            RpcEndpoint::GetProgramAccounts => 27,
            RpcEndpoint::GetRecentPerformanceSamples => 28,
            RpcEndpoint::GetHighestSnapshotSlot => 29,
            RpcEndpoint::GetSignaturesForAddress => 30,
            RpcEndpoint::GetSignatureStatuses => 31,
            RpcEndpoint::GetSlot => 32,
            RpcEndpoint::GetSlotLeader => 33,
            RpcEndpoint::GetSlotLeaders => 34,
            RpcEndpoint::GetStorageTurn => 35,
            RpcEndpoint::GetStorageTurnRate => 36,
            RpcEndpoint::GetSlotsPerSegment => 37,
            RpcEndpoint::GetStakeActivation => 38,
            RpcEndpoint::GetStakeMinimumDelegation => 39,
            RpcEndpoint::GetStoragePubkeysForSlot => 40,
            RpcEndpoint::GetSupply => 41,
            RpcEndpoint::GetTokenAccountBalance => 42,
            RpcEndpoint::GetTokenAccountsByDelegate => 43,
            RpcEndpoint::GetTokenAccountsByOwner => 44,
            RpcEndpoint::GetTokenSupply => 45,
            RpcEndpoint::GetTransaction => 46,
            RpcEndpoint::GetTransactionCount => 47,
            RpcEndpoint::GetVersion => 48,
            RpcEndpoint::GetVoteAccounts => 49,
            RpcEndpoint::IsBlockhashValid => 50,
            RpcEndpoint::MinimumLedgerSlot => 51,
            RpcEndpoint::RegisterNode => 52,
            RpcEndpoint::RequestAirdrop => 53,
            RpcEndpoint::SendTransaction => 54,
            RpcEndpoint::SimulateTransaction => 55,
            RpcEndpoint::SignVote => 56,
            RpcEndpoint::GetRecentPrioritizationFees => 57,
            RpcEndpoint::GetTokenLargestAccounts => 58,
            RpcEndpoint::Custom { .. } => CUSTOM_CODE,
        }
    }
}

impl View for RpcEndpoint {
    /// What identifies an endpoint: its code, and for a custom method its name (empty for the
    /// named endpoints).
    type V = (u32, Seq<char>);

    open spec fn view(&self) -> (u32, Seq<char>) {
        match self {
            RpcEndpoint::Custom { method } => (CUSTOM_CODE, method@),
            _ => (self.spec_code(), Seq::empty()),
        }
    }
}

/// Decoding the code of a named endpoint gives the endpoint back.
pub broadcast proof fn lemma_code_decodes(e: RpcEndpoint)
    ensures
        !(e is Custom) ==> #[trigger] RpcEndpoint::from_code(e.spec_code()) == Some(e),
        (e is Custom) <==> e.spec_code() == CUSTOM_CODE,
{
}

/// Two named endpoints with the same code are the same endpoint.
pub proof fn lemma_code_injective(a: RpcEndpoint, b: RpcEndpoint)
    requires
        !(a is Custom),
        !(b is Custom),
    ensures
        a.spec_code() == b.spec_code() <==> a == b,
{
    lemma_code_decodes(a);
    lemma_code_decodes(b);
}

/// The endpoints that sending a transaction and waiting for its confirmation uses: the
/// transaction is sent and its status polled, and a transaction that uses a durable nonce also
/// asks for the latest blockhash.
pub fn send_and_confirm_endpoints(uses_durable_nonce: bool) -> (v: Vec<RpcEndpoint>)
    ensures
        v@ == if uses_durable_nonce {
            seq![
                RpcEndpoint::GetLatestBlockhash,
                RpcEndpoint::SendTransaction,
                RpcEndpoint::GetSignatureStatuses,
            ]
        } else {
            seq![RpcEndpoint::SendTransaction, RpcEndpoint::GetSignatureStatuses]
        },
{
    if uses_durable_nonce {
        vec![
            RpcEndpoint::GetLatestBlockhash,
            RpcEndpoint::SendTransaction,
            RpcEndpoint::GetSignatureStatuses,
        ]
    } else {
        vec![RpcEndpoint::SendTransaction, RpcEndpoint::GetSignatureStatuses]
    }
}

} // verus!
