use vstd::prelude::*;

use crate::errors::ClientError;
use crate::header::HeaderView;
use crate::height::Height;
use crate::path::clone_bytes;
use crate::path::clone_strings;
use crate::time::Duration;

verus! {

/// The fraction of the validator set whose signatures a verified header
/// must carry. A level is valid when `1/3 <= numerator/denominator <= 1`.
#[derive(Clone, Copy, PartialEq, Eq, Structural, Debug)]
pub struct TrustLevel {
    pub numerator: u64,
    pub denominator: u64,
}

impl TrustLevel {
    /// `1/3 <= numerator/denominator <= 1`, stated without division.
    pub open spec fn spec_valid(self) -> bool {
        self.denominator > 0 && 3 * self.numerator >= self.denominator && self.numerator
            <= self.denominator
    }

    pub fn is_valid(&self) -> (r: bool)
        ensures
            r == self.spec_valid(),
    {
        self.denominator > 0 && (self.numerator as u128) * 3 >= (self.denominator as u128)
            && self.numerator <= self.denominator
    }

    /// The zero level, never valid for a live client; `zero_custom_fields`
    /// resets the trust level to it.
    pub fn zero() -> (r: TrustLevel)
        ensures
            r == (TrustLevel { numerator: 0, denominator: 0 }),
    {
        TrustLevel { numerator: 0, denominator: 0 }
    }
}

/// Whether governance may recover this client once it has expired or been
/// frozen; consumed by the validation layer.
#[derive(Clone, Copy, PartialEq, Eq, Structural, Debug)]
pub struct AllowUpdate {
    pub after_expiry: bool,
    pub after_misbehaviour: bool,
}

/// The mutable singleton record of one client: its trust parameters, the
/// latest verified height, and the frozen marker.
#[derive(Debug)]
pub struct ClientState {
    pub chain_id: String,
    pub trust_level: TrustLevel,
    pub trusting_period: Duration,
    pub unbonding_period: Duration,
    pub max_clock_drift: Duration,
    pub latest_height: Height,
    pub frozen_height: Option<Height>,
    /// The proof-spec configuration of the counterparty's commitment store,
    /// carried opaquely: the engine only copies it across upgrades.
    pub proof_specs: Vec<u8>,
    /// The store keys under which the counterparty commits upgraded states.
    pub upgrade_path: Vec<String>,
    pub allow_update: AllowUpdate,
}

/// The mathematical value of a [`ClientState`].
pub ghost struct ClientStateView {
    pub chain_id: Seq<char>,
    pub trust_level: TrustLevel,
    pub trusting_period: Duration,
    pub unbonding_period: Duration,
    pub max_clock_drift: Duration,
    pub latest_height: Height,
    pub frozen_height: Option<Height>,
    pub proof_specs: Seq<u8>,
    pub upgrade_path: Seq<Seq<char>>,
    pub allow_update: AllowUpdate,
}

impl View for ClientState {
    type V = ClientStateView;

    open spec fn view(&self) -> ClientStateView {
        ClientStateView {
            chain_id: self.chain_id@,
            trust_level: self.trust_level,
            trusting_period: self.trusting_period,
            unbonding_period: self.unbonding_period,
            max_clock_drift: self.max_clock_drift,
            latest_height: self.latest_height,
            frozen_height: self.frozen_height,
            proof_specs: self.proof_specs@,
            upgrade_path: self.upgrade_path.deep_view(),
            allow_update: self.allow_update,
        }
    }
}

impl Clone for ClientState {
    fn clone(&self) -> (r: Self)
        ensures
            r@ == self@,
    {
        ClientState {
            chain_id: self.chain_id.clone(),
            trust_level: self.trust_level,
            trusting_period: self.trusting_period,
            unbonding_period: self.unbonding_period,
            max_clock_drift: self.max_clock_drift,
            latest_height: self.latest_height,
            frozen_height: self.frozen_height,
            proof_specs: clone_bytes(&self.proof_specs),
            upgrade_path: clone_strings(&self.upgrade_path),
            allow_update: self.allow_update,
        }
    }
}

/// The parameter invariants a live client must satisfy: a trust level
/// between one third and one, and a positive trusting period strictly below
/// the unbonding period, with a positive allowance for clock drift.
pub open spec fn spec_params_valid(c: ClientStateView) -> bool {
    c.trust_level.spec_valid() && c.trusting_period.nanos > 0 && c.unbonding_period.nanos > 0
        && c.trusting_period.nanos < c.unbonding_period.nanos && c.max_clock_drift.nanos > 0
}

/// The larger of two heights in the lexicographic order.
pub open spec fn spec_height_max(a: Height, b: Height) -> Height {
    if a.spec_le(b) {
        b
    } else {
        a
    }
}

/// The client state after incorporating a header: the latest height rises
/// to the header's height if that is higher, and every other parameter is
/// preserved. A header below the latest height (a historical fill-in)
/// leaves the latest height unchanged.
pub open spec fn spec_with_header(c: ClientStateView, h: HeaderView) -> ClientStateView {
    ClientStateView { latest_height: spec_height_max(c.latest_height, h.height), ..c }
}

impl ClientState {
    /// Constructs a client state from its parameters, checking the
    /// parameter invariants; a new valid client is never frozen. The
    /// identifier-shaped parameters (chain id, proof specs, upgrade path)
    /// are carried opaquely and not inspected here.
    pub fn new(chain_id: String, trust_level: TrustLevel, trusting_period: Duration,
        unbonding_period: Duration, max_clock_drift: Duration, latest_height: Height,
        proof_specs: Vec<u8>, upgrade_path: Vec<String>, allow_update: AllowUpdate) -> (r: Result<
        ClientState,
        ClientError,
    >)
        ensures
            ({
                let v = ClientStateView {
                    chain_id: chain_id@,
                    trust_level,
                    trusting_period,
                    unbonding_period,
                    max_clock_drift,
                    latest_height,
                    frozen_height: None,
                    proof_specs: proof_specs@,
                    upgrade_path: upgrade_path.deep_view(),
                    allow_update,
                };
                if spec_params_valid(v) {
                    r matches Ok(c) && c@ == v
                } else {
                    r == Err::<ClientState, ClientError>(ClientError::InvalidClientState)
                }
            }),
    {
        let valid = trust_level.is_valid() && trusting_period.nanos > 0 && unbonding_period.nanos
            > 0 && trusting_period.nanos < unbonding_period.nanos && max_clock_drift.nanos > 0;
        if valid {
            Ok(ClientState {
                chain_id,
                trust_level,
                trusting_period,
                unbonding_period,
                max_clock_drift,
                latest_height,
                frozen_height: None,
                proof_specs,
                upgrade_path,
                allow_update,
            })
        } else {
            Err(ClientError::InvalidClientState)
        }
    }

    /// Incorporates a verified header. Incorporation itself cannot fail —
    /// rejecting a header whose trust parameters do not fit is the
    /// validation phase's task — but the result stays fallible so that a
    /// stricter client-state flavour can refuse here.
    pub fn with_header(self, header: &crate::header::Header) -> (r: Result<ClientState,
        ClientError>)
        ensures
            r matches Ok(c) && c@ == spec_with_header(self@, header@),
    {
        let latest_height = if self.latest_height.le(&header.height) {
            header.height
        } else {
            self.latest_height
        };
        Ok(ClientState { latest_height, ..self })
    }

    /// Freezes the client at the given marker height.
    pub fn with_frozen_height(self, h: Height) -> (r: ClientState)
        ensures
            r@ == (ClientStateView { frozen_height: Some(h), ..self@ }),
    {
        ClientState { frozen_height: Some(h), ..self }
    }

    /// Resets every client-chosen parameter to its zero value, leaving only
    /// the chain-chosen ones. Run on a committed upgraded client state
    /// before the upgrade merge, so that relayer-manipulated client-chosen
    /// fields are discarded.
    pub fn zero_custom_fields(&mut self)
        ensures
            final(self)@ == (ClientStateView {
                trust_level: TrustLevel { numerator: 0, denominator: 0 },
                trusting_period: Duration { nanos: 0 },
                max_clock_drift: Duration { nanos: 0 },
                frozen_height: None,
                allow_update: AllowUpdate { after_expiry: false, after_misbehaviour: false },
                ..old(self)@
            }),
    {
        self.trust_level = TrustLevel::zero();
        self.trusting_period = Duration { nanos: 0 };
        self.max_clock_drift = Duration { nanos: 0 };
        self.frozen_height = None;
        self.allow_update = AllowUpdate { after_expiry: false, after_misbehaviour: false };
    }

    pub fn is_frozen(&self) -> (r: bool)
        ensures
            r == (self@.frozen_height is Some),
    {
        self.frozen_height.is_some()
    }
}

} // verus!
