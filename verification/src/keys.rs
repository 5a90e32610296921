//! Structural descriptions of the key material a solved circuit needs.
//! No key bytes are ever generated here: a key description only records the
//! dimensions and decomposition parameters that the runtime must honour.
//! Identifiers are unique within each vector of [`CircuitKeys`] and are the
//! join key used by [`InstructionKeys`].

use crate::parameters::{BrDecompositionParameters, KsDecompositionParameters};
use vstd::prelude::*;

verus! {

/// The distinguished identifier that marks an unused key slot in an
/// [`InstructionKeys`] record.
pub const NO_KEY_ID: u64 = u64::MAX;

/// A secret LWE key description: models both the large "canonical"
/// representation and any small post-keyswitch representation.
#[derive(Debug, PartialEq)]
pub struct SecretLweKey {
    pub identifier: u64,
    pub polynomial_size: u64,
    pub glwe_dimension: u64,
    pub description: String,
}

/// A keyswitch key description linking two secret keys.
#[derive(Debug, PartialEq)]
pub struct KeySwitchKey {
    pub identifier: u64,
    pub input_key: SecretLweKey,
    pub output_key: SecretLweKey,
    pub ks_decomposition_parameter: KsDecompositionParameters,
    pub description: String,
}

/// A keyswitch key used to convert ciphertexts between partitions.
#[derive(Debug, PartialEq)]
pub struct ConversionKeySwitchKey {
    pub identifier: u64,
    pub input_key: SecretLweKey,
    pub output_key: SecretLweKey,
    pub ks_decomposition_parameter: KsDecompositionParameters,
    pub fast_keyswitch: bool,
    pub description: String,
}

/// A bootstrap key description linking the small and the large representation.
#[derive(Debug, PartialEq)]
pub struct BootstrapKey {
    pub identifier: u64,
    pub input_key: SecretLweKey,
    pub output_key: SecretLweKey,
    pub br_decomposition_parameter: BrDecompositionParameters,
    pub description: String,
}

/// A circuit-bootstrap key, present only under the alternate ("WoP")
/// bootstrapping strategy.
#[derive(Debug, PartialEq)]
pub struct CircuitBoostrapKey {
    pub identifier: u64,
    pub representation_key: SecretLweKey,
    pub br_decomposition_parameter: BrDecompositionParameters,
    pub description: String,
}

/// A private functional packing keyswitch key, present only under the
/// alternate ("WoP") bootstrapping strategy.
#[derive(Debug, PartialEq)]
pub struct PrivateFunctionalPackingBoostrapKey {
    pub identifier: u64,
    pub representation_key: SecretLweKey,
    pub br_decomposition_parameter: BrDecompositionParameters,
    pub description: String,
}

/// All keys used in one solved circuit.
#[derive(Debug, PartialEq)]
pub struct CircuitKeys {
    pub secret_keys: Vec<SecretLweKey>,
    pub keyswitch_keys: Vec<KeySwitchKey>,
    pub bootstrap_keys: Vec<BootstrapKey>,
    pub conversion_keyswitch_keys: Vec<ConversionKeySwitchKey>,
    pub circuit_bootstrap_keys: Vec<CircuitBoostrapKey>,
    pub private_functional_packing_keys: Vec<PrivateFunctionalPackingBoostrapKey>,
}

/// Per-operator key bindings: which secret key the operator's input must be
/// under, which keyswitch/bootstrap/circuit-bootstrap/packing key it uses,
/// any extra conversion keys, and which secret key its output lands under.
/// [`NO_KEY_ID`] marks unused slots.
#[derive(Debug, PartialEq)]
pub struct InstructionKeys {
    pub input_key: u64,
    pub tlu_keyswitch_key: u64,
    pub tlu_bootstrap_key: u64,
    pub tlu_circuit_bootstrap_key: u64,
    pub tlu_private_functional_packing_key: u64,
    pub output_key: u64,
    pub extra_conversion_keys: Vec<u64>,
}

impl CircuitKeys {
    /// A secret-key identifier occurs in `secret_keys`.
    pub open spec fn has_secret_key_id(self, id: u64) -> bool {
        exists|i: int|
            0 <= i < self.secret_keys@.len() && self.secret_keys@[i].identifier == id
    }

    /// A keyswitch-key identifier occurs in `keyswitch_keys`.
    pub open spec fn has_keyswitch_key_id(self, id: u64) -> bool {
        exists|i: int|
            0 <= i < self.keyswitch_keys@.len() && self.keyswitch_keys@[i].identifier == id
    }

    /// A bootstrap-key identifier occurs in `bootstrap_keys`.
    pub open spec fn has_bootstrap_key_id(self, id: u64) -> bool {
        exists|i: int|
            0 <= i < self.bootstrap_keys@.len() && self.bootstrap_keys@[i].identifier == id
    }

    /// A conversion-keyswitch-key identifier occurs in
    /// `conversion_keyswitch_keys`.
    pub open spec fn has_conversion_key_id(self, id: u64) -> bool {
        exists|i: int|
            0 <= i < self.conversion_keyswitch_keys@.len()
                && self.conversion_keyswitch_keys@[i].identifier == id
    }

    /// A circuit-bootstrap-key identifier occurs in `circuit_bootstrap_keys`.
    pub open spec fn has_circuit_bootstrap_key_id(self, id: u64) -> bool {
        exists|i: int|
            0 <= i < self.circuit_bootstrap_keys@.len()
                && self.circuit_bootstrap_keys@[i].identifier == id
    }

    /// A packing-key identifier occurs in `private_functional_packing_keys`.
    pub open spec fn has_packing_key_id(self, id: u64) -> bool {
        exists|i: int|
            0 <= i < self.private_functional_packing_keys@.len()
                && self.private_functional_packing_keys@[i].identifier == id
    }
}

impl InstructionKeys {
    /// Key consistency: every identifier this record references, other than
    /// [`NO_KEY_ID`], exists in the corresponding vector of `keys`.
    pub open spec fn consistent_with(self, keys: CircuitKeys) -> bool {
        &&& (self.input_key != NO_KEY_ID ==> keys.has_secret_key_id(self.input_key))
        &&& (self.output_key != NO_KEY_ID ==> keys.has_secret_key_id(self.output_key))
        &&& (self.tlu_keyswitch_key != NO_KEY_ID ==> keys.has_keyswitch_key_id(
            self.tlu_keyswitch_key,
        ))
        &&& (self.tlu_bootstrap_key != NO_KEY_ID ==> keys.has_bootstrap_key_id(
            self.tlu_bootstrap_key,
        ))
        &&& (self.tlu_circuit_bootstrap_key != NO_KEY_ID ==> keys.has_circuit_bootstrap_key_id(
            self.tlu_circuit_bootstrap_key,
        ))
        &&& (self.tlu_private_functional_packing_key != NO_KEY_ID ==> keys.has_packing_key_id(
            self.tlu_private_functional_packing_key,
        ))
        &&& (forall|i: int|
            0 <= i < self.extra_conversion_keys@.len() ==> keys.has_conversion_key_id(
                #[trigger] self.extra_conversion_keys@[i],
            ))
    }
}


/// Converts every element of a vector through its `From` conversion,
/// keeping the order.
pub fn vec_into<F, T: From<F>>(vec: Vec<F>) -> (r: Vec<T>)
    ensures
        r@.len() == vec@.len(),
        forall|i: int|
            0 <= i < vec@.len() ==> call_ensures(T::from, (vec@[i],), #[trigger] r@[i]),
{
    let ghost orig = vec@;
    let mut vec = vec;
    let mut r: Vec<T> = Vec::new();
    while vec.len() > 0
        invariant
            r@.len() + vec@.len() == orig.len(),
            vec@ == orig.subrange(r@.len() as int, orig.len() as int),
            forall|i: int|
                0 <= i < r@.len() ==> call_ensures(T::from, (orig[i],), #[trigger] r@[i]),
        decreases vec@.len(),
    {
        let x = vec.remove(0);
        r.push(T::from(x));
        proof {
            assert(vec@ =~= orig.subrange(r@.len() as int, orig.len() as int));
        }
    }
    r
}


impl CircuitKeys {
    /// Identifiers are the join key used by instruction records: within
    /// each key vector they are pairwise distinct.
    pub open spec fn ids_unique(self) -> bool {
        &&& (forall|a: int, b: int|
            0 <= a < b < self.secret_keys@.len() ==> (#[trigger] self.secret_keys@[a]).identifier
                != (#[trigger] self.secret_keys@[b]).identifier)
        &&& (forall|a: int, b: int|
            0 <= a < b < self.keyswitch_keys@.len() ==> (#[trigger] self.keyswitch_keys@[a]).identifier
                != (#[trigger] self.keyswitch_keys@[b]).identifier)
        &&& (forall|a: int, b: int|
            0 <= a < b < self.bootstrap_keys@.len() ==> (#[trigger] self.bootstrap_keys@[a]).identifier
                != (#[trigger] self.bootstrap_keys@[b]).identifier)
        &&& (forall|a: int, b: int|
            0 <= a < b < self.conversion_keyswitch_keys@.len() ==> (#[trigger] self.conversion_keyswitch_keys@[a]).identifier
                != (#[trigger] self.conversion_keyswitch_keys@[b]).identifier)
        &&& (forall|a: int, b: int|
            0 <= a < b < self.circuit_bootstrap_keys@.len() ==> (#[trigger] self.circuit_bootstrap_keys@[a]).identifier
                != (#[trigger] self.circuit_bootstrap_keys@[b]).identifier)
        &&& (forall|a: int, b: int|
            0 <= a < b < self.private_functional_packing_keys@.len() ==> (#[trigger] self.private_functional_packing_keys@[a]).identifier
                != (#[trigger] self.private_functional_packing_keys@[b]).identifier)
    }

    /// Exec mirror of [`Self::ids_unique`].
    pub fn check_ids_unique(&self) -> (r: bool)
        ensures
            r == self.ids_unique(),
    {
        let n = self.secret_keys.len();
        let mut i: usize = 0;
        while i < n
            invariant
                i <= n,
                n == self.secret_keys@.len(),
                forall|a: int, b: int|
                    0 <= a < b < i ==> (#[trigger] self.secret_keys@[a]).identifier
                        != (#[trigger] self.secret_keys@[b]).identifier,
            decreases n - i,
        {
            let mut j: usize = 0;
            while j < i
                invariant
                    j <= i < n,
                    n == self.secret_keys@.len(),
                    forall|a: int|
                        0 <= a < j ==> (#[trigger] self.secret_keys@[a]).identifier
                            != self.secret_keys@[i as int].identifier,
                decreases i - j,
            {
                if self.secret_keys[j].identifier == self.secret_keys[i].identifier {
                    return false;
                }
                j += 1;
            }
            i += 1;
        }
        let n = self.keyswitch_keys.len();
        let mut i: usize = 0;
        while i < n
            invariant
                i <= n,
                n == self.keyswitch_keys@.len(),
                forall|a: int, b: int|
                    0 <= a < b < i ==> (#[trigger] self.keyswitch_keys@[a]).identifier
                        != (#[trigger] self.keyswitch_keys@[b]).identifier,
            decreases n - i,
        {
            let mut j: usize = 0;
            while j < i
                invariant
                    j <= i < n,
                    n == self.keyswitch_keys@.len(),
                    forall|a: int|
                        0 <= a < j ==> (#[trigger] self.keyswitch_keys@[a]).identifier
                            != self.keyswitch_keys@[i as int].identifier,
                decreases i - j,
            {
                if self.keyswitch_keys[j].identifier == self.keyswitch_keys[i].identifier {
                    return false;
                }
                j += 1;
            }
            i += 1;
        }
        let n = self.bootstrap_keys.len();
        let mut i: usize = 0;
        while i < n
            invariant
                i <= n,
                n == self.bootstrap_keys@.len(),
                forall|a: int, b: int|
                    0 <= a < b < i ==> (#[trigger] self.bootstrap_keys@[a]).identifier
                        != (#[trigger] self.bootstrap_keys@[b]).identifier,
            decreases n - i,
        {
            let mut j: usize = 0;
            while j < i
                invariant
                    j <= i < n,
                    n == self.bootstrap_keys@.len(),
                    forall|a: int|
                        0 <= a < j ==> (#[trigger] self.bootstrap_keys@[a]).identifier
                            != self.bootstrap_keys@[i as int].identifier,
                decreases i - j,
            {
                if self.bootstrap_keys[j].identifier == self.bootstrap_keys[i].identifier {
                    return false;
                }
                j += 1;
            }
            i += 1;
        }
        let n = self.conversion_keyswitch_keys.len();
        let mut i: usize = 0;
        while i < n
            invariant
                i <= n,
                n == self.conversion_keyswitch_keys@.len(),
                forall|a: int, b: int|
                    0 <= a < b < i ==> (#[trigger] self.conversion_keyswitch_keys@[a]).identifier
                        != (#[trigger] self.conversion_keyswitch_keys@[b]).identifier,
            decreases n - i,
        {
            let mut j: usize = 0;
            while j < i
                invariant
                    j <= i < n,
                    n == self.conversion_keyswitch_keys@.len(),
                    forall|a: int|
                        0 <= a < j ==> (#[trigger] self.conversion_keyswitch_keys@[a]).identifier
                            != self.conversion_keyswitch_keys@[i as int].identifier,
                decreases i - j,
            {
                if self.conversion_keyswitch_keys[j].identifier == self.conversion_keyswitch_keys[i].identifier {
                    return false;
                }
                j += 1;
            }
            i += 1;
        }
        let n = self.circuit_bootstrap_keys.len();
        let mut i: usize = 0;
        while i < n
            invariant
                i <= n,
                n == self.circuit_bootstrap_keys@.len(),
                forall|a: int, b: int|
                    0 <= a < b < i ==> (#[trigger] self.circuit_bootstrap_keys@[a]).identifier
                        != (#[trigger] self.circuit_bootstrap_keys@[b]).identifier,
            decreases n - i,
        {
            let mut j: usize = 0;
            while j < i
                invariant
                    j <= i < n,
                    n == self.circuit_bootstrap_keys@.len(),
                    forall|a: int|
                        0 <= a < j ==> (#[trigger] self.circuit_bootstrap_keys@[a]).identifier
                            != self.circuit_bootstrap_keys@[i as int].identifier,
                decreases i - j,
            {
                if self.circuit_bootstrap_keys[j].identifier == self.circuit_bootstrap_keys[i].identifier {
                    return false;
                }
                j += 1;
            }
            i += 1;
        }
        let n = self.private_functional_packing_keys.len();
        let mut i: usize = 0;
        while i < n
            invariant
                i <= n,
                n == self.private_functional_packing_keys@.len(),
                forall|a: int, b: int|
                    0 <= a < b < i ==> (#[trigger] self.private_functional_packing_keys@[a]).identifier
                        != (#[trigger] self.private_functional_packing_keys@[b]).identifier,
            decreases n - i,
        {
            let mut j: usize = 0;
            while j < i
                invariant
                    j <= i < n,
                    n == self.private_functional_packing_keys@.len(),
                    forall|a: int|
                        0 <= a < j ==> (#[trigger] self.private_functional_packing_keys@[a]).identifier
                            != self.private_functional_packing_keys@[i as int].identifier,
                decreases i - j,
            {
                if self.private_functional_packing_keys[j].identifier == self.private_functional_packing_keys[i].identifier {
                    return false;
                }
                j += 1;
            }
            i += 1;
        }
        true
    }

    /// Exec mirror of [`Self::has_secret_key_id`].
    pub fn check_has_secret_key_id(&self, id: u64) -> (r: bool)
        ensures
            r == self.has_secret_key_id(id),
    {
        let n = self.secret_keys.len();
        let mut i: usize = 0;
        while i < n
            invariant
                i <= n,
                n == self.secret_keys@.len(),
                forall|k: int| 0 <= k < i ==> (#[trigger] self.secret_keys@[k]).identifier != id,
            decreases n - i,
        {
            if self.secret_keys[i].identifier == id {
                return true;
            }
            i += 1;
        }
        false
    }

    /// Exec mirror of [`Self::has_keyswitch_key_id`].
    pub fn check_has_keyswitch_key_id(&self, id: u64) -> (r: bool)
        ensures
            r == self.has_keyswitch_key_id(id),
    {
        let n = self.keyswitch_keys.len();
        let mut i: usize = 0;
        while i < n
            invariant
                i <= n,
                n == self.keyswitch_keys@.len(),
                forall|k: int| 0 <= k < i ==> (#[trigger] self.keyswitch_keys@[k]).identifier != id,
            decreases n - i,
        {
            if self.keyswitch_keys[i].identifier == id {
                return true;
            }
            i += 1;
        }
        false
    }

    /// Exec mirror of [`Self::has_bootstrap_key_id`].
    pub fn check_has_bootstrap_key_id(&self, id: u64) -> (r: bool)
        ensures
            r == self.has_bootstrap_key_id(id),
    {
        let n = self.bootstrap_keys.len();
        let mut i: usize = 0;
        while i < n
            invariant
                i <= n,
                n == self.bootstrap_keys@.len(),
                forall|k: int| 0 <= k < i ==> (#[trigger] self.bootstrap_keys@[k]).identifier != id,
            decreases n - i,
        {
            if self.bootstrap_keys[i].identifier == id {
                return true;
            }
            i += 1;
        }
        false
    }

    /// Exec mirror of [`Self::has_conversion_key_id`].
    pub fn check_has_conversion_key_id(&self, id: u64) -> (r: bool)
        ensures
            r == self.has_conversion_key_id(id),
    {
        let n = self.conversion_keyswitch_keys.len();
        let mut i: usize = 0;
        while i < n
            invariant
                i <= n,
                n == self.conversion_keyswitch_keys@.len(),
                forall|k: int| 0 <= k < i ==> (#[trigger] self.conversion_keyswitch_keys@[k]).identifier != id,
            decreases n - i,
        {
            if self.conversion_keyswitch_keys[i].identifier == id {
                return true;
            }
            i += 1;
        }
        false
    }

    /// Exec mirror of [`Self::has_circuit_bootstrap_key_id`].
    pub fn check_has_circuit_bootstrap_key_id(&self, id: u64) -> (r: bool)
        ensures
            r == self.has_circuit_bootstrap_key_id(id),
    {
        let n = self.circuit_bootstrap_keys.len();
        let mut i: usize = 0;
        while i < n
            invariant
                i <= n,
                n == self.circuit_bootstrap_keys@.len(),
                forall|k: int| 0 <= k < i ==> (#[trigger] self.circuit_bootstrap_keys@[k]).identifier != id,
            decreases n - i,
        {
            if self.circuit_bootstrap_keys[i].identifier == id {
                return true;
            }
            i += 1;
        }
        false
    }

    /// Exec mirror of [`Self::has_packing_key_id`].
    pub fn check_has_packing_key_id(&self, id: u64) -> (r: bool)
        ensures
            r == self.has_packing_key_id(id),
    {
        let n = self.private_functional_packing_keys.len();
        let mut i: usize = 0;
        while i < n
            invariant
                i <= n,
                n == self.private_functional_packing_keys@.len(),
                forall|k: int| 0 <= k < i ==> (#[trigger] self.private_functional_packing_keys@[k]).identifier != id,
            decreases n - i,
        {
            if self.private_functional_packing_keys[i].identifier == id {
                return true;
            }
            i += 1;
        }
        false
    }

}

impl InstructionKeys {
    /// Exec mirror of [`Self::consistent_with`].
    pub fn check_consistent_with(&self, keys: &CircuitKeys) -> (r: bool)
        ensures
            r == self.consistent_with(*keys),
    {
        if self.input_key != NO_KEY_ID && !keys.check_has_secret_key_id(self.input_key) {
            return false;
        }
        if self.output_key != NO_KEY_ID && !keys.check_has_secret_key_id(self.output_key) {
            return false;
        }
        if self.tlu_keyswitch_key != NO_KEY_ID && !keys.check_has_keyswitch_key_id(
            self.tlu_keyswitch_key,
        ) {
            return false;
        }
        if self.tlu_bootstrap_key != NO_KEY_ID && !keys.check_has_bootstrap_key_id(
            self.tlu_bootstrap_key,
        ) {
            return false;
        }
        if self.tlu_circuit_bootstrap_key != NO_KEY_ID && !keys.check_has_circuit_bootstrap_key_id(
            self.tlu_circuit_bootstrap_key,
        ) {
            return false;
        }
        if self.tlu_private_functional_packing_key != NO_KEY_ID && !keys.check_has_packing_key_id(
            self.tlu_private_functional_packing_key,
        ) {
            return false;
        }
        let n = self.extra_conversion_keys.len();
        let mut i: usize = 0;
        while i < n
            invariant
                i <= n,
                n == self.extra_conversion_keys@.len(),
                forall|k: int|
                    0 <= k < i ==> keys.has_conversion_key_id(
                        #[trigger] self.extra_conversion_keys@[k],
                    ),
            decreases n - i,
        {
            if !keys.check_has_conversion_key_id(self.extra_conversion_keys[i]) {
                return false;
            }
            i += 1;
        }
        true
    }
}

/// A backend or caller bug found while validating a synthesized keyset.
#[derive(Debug, Clone, Copy, PartialEq, Eq, Structural)]
pub enum KeysetError {
    /// Two keys of one vector share an identifier.
    DuplicateKeyIdentifier,
    /// Conversion keyswitch keys were synthesized although their generation
    /// was not requested.
    UnexpectedConversionKeys,
}

/// Validates a synthesized virtual keyset before it is handed out:
/// identifiers must be unique within each vector (they are the join key),
/// and conversion keyswitch keys may exist only when their generation was
/// requested.  A valid keyset passes through unchanged.
pub fn check_virtual_keyset(keys: CircuitKeys, generate_fks: bool) -> (r: Result<
    CircuitKeys,
    KeysetError,
>)
    ensures
        !keys.ids_unique() ==> r == Err::<CircuitKeys, KeysetError>(
            KeysetError::DuplicateKeyIdentifier,
        ),
        (keys.ids_unique() && !generate_fks && keys.conversion_keyswitch_keys@.len() > 0) ==> r
            == Err::<CircuitKeys, KeysetError>(KeysetError::UnexpectedConversionKeys),
        (keys.ids_unique() && (generate_fks || keys.conversion_keyswitch_keys@.len() == 0)) ==> (
        r matches Ok(k) && k == keys),
{
    if !keys.check_ids_unique() {
        return Err(KeysetError::DuplicateKeyIdentifier);
    }
    if !generate_fks && keys.conversion_keyswitch_keys.len() > 0 {
        return Err(KeysetError::UnexpectedConversionKeys);
    }
    Ok(keys)
}


} // verus!
