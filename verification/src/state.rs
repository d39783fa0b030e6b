//! The single process-wide state and its creation.
//!
//! One value of `ProcessState` lives for the whole process: the 256-bit
//! symmetric key fixed at creation, the asymmetric public key once the
//! lifecycle manager has minted it, the authorized principal, and the
//! deployment mode.  Creation validates the symmetric key hex; everything
//! else never changes it.

use vstd::prelude::*;

use crate::hexcodec::from_hex;
use crate::hexcodec::hex_chars;
use crate::hexcodec::hex_decode;
use crate::hexcodec::hex_string;
use crate::hexcodec::is_hex;
use crate::types::CallerId;
use crate::types::CertError;
use crate::types::Mode;

verus! {

/// All process-wide state, as one owned value.
pub struct ProcessState {
    /// 32 bytes of symmetric key material, decoded from the creation hex.
    pub sym_key: Vec<u8>,
    /// The asymmetric public key; absent until initialization succeeds,
    /// immutable afterwards.
    pub public_key: Option<Vec<u8>>,
    /// Raw principal bytes of the entity allowed to run privileged
    /// operations.
    pub controller: Vec<u8>,
    /// Which named oracle key this deployment works against.
    pub mode: Mode,
}

/// The mathematical shadow of `ProcessState`.
pub struct StateModel {
    pub sym_key: Seq<u8>,
    pub public_key: Option<Seq<u8>>,
    pub controller: Seq<u8>,
    pub mode: Mode,
}

impl StateModel {
    /// What every reachable state satisfies: the key material is exactly 32
    /// bytes.
    pub open spec fn wf(self) -> bool {
        self.sym_key.len() == 32
    }
}

impl View for ProcessState {
    type V = StateModel;

    open spec fn view(&self) -> StateModel {
        StateModel {
            sym_key: self.sym_key@,
            public_key: match self.public_key {
                Option::Some(k) => Option::Some(k@),
                Option::None => Option::None,
            },
            controller: self.controller@,
            mode: self.mode,
        }
    }
}

/// The oracle key name a deployment mode selects.
pub open spec fn key_name_spec(mode: Mode) -> Seq<char> {
    match mode {
        Mode::Test => "dfx_test_key"@,
        Mode::Production => "key_1"@,
    }
}

/// The name of the oracle key for this mode: a test-only key identity in
/// test mode, the production key identity otherwise.
pub fn get_key_name(mode: Mode) -> (r: String)
    ensures
        r@ == key_name_spec(mode),
{
    match mode {
        Mode::Test => "dfx_test_key".to_owned(),
        Mode::Production => "key_1".to_owned(),
    }
}

/// Byte-for-byte equality of two slices.
pub fn bytes_eq(a: &[u8], b: &[u8]) -> (r: bool)
    ensures
        r <==> a@ == b@,
{
    if a.len() != b.len() {
        return false;
    }
    let mut i: usize = 0;
    while i < a.len()
        invariant
            a@.len() == b@.len(),
            0 <= i <= a@.len(),
            forall|j: int| 0 <= j < i ==> a@[j] == b@[j],
        decreases a@.len() - i,
    {
        if a[i] != b[i] {
            return false;
        }
        i = i + 1;
    }
    proof {
        assert(a@ =~= b@);
    }
    true
}

impl ProcessState {
    pub open spec fn wf(&self) -> bool {
        self@.wf()
    }

    /// Creates the process state from the symmetric key hex, the deployment
    /// mode and the authorized principal.  Succeeds exactly when the hex
    /// denotes 32 bytes; any other string is a configuration error and no
    /// state exists.
    pub fn create(sym_key_hex: &[u8], mode: Mode, controller: Vec<u8>) -> (r: Result<
        ProcessState,
        CertError,
    >)
        ensures
            r is Ok <==> (is_hex(sym_key_hex@) && sym_key_hex@.len() == 64),
            r matches Ok(s) ==> s@ == (StateModel {
                sym_key: from_hex(sym_key_hex@),
                public_key: Option::None,
                controller: controller@,
                mode,
            }) && s.wf(),
            r matches Err(e) ==> e == CertError::ConfigurationError,
    {
        match hex_decode(sym_key_hex) {
            Option::Some(key) => {
                if key.len() == 32 {
                    Ok(ProcessState { sym_key: key, public_key: None, controller, mode })
                } else {
                    Err(CertError::ConfigurationError)
                }
            },
            Option::None => Err(CertError::ConfigurationError),
        }
    }

    /// The stored public key hex-encoded, or the empty string while no key
    /// has been minted; only the authorized principal may ask.
    pub fn get_ecdsa_public_key_hex(&self, caller: &CallerId) -> (r: Result<String, CertError>)
        ensures
            r is Ok <==> caller.raw@ == self@.controller,
            r matches Ok(h) ==> h@ == (match self@.public_key {
                Option::Some(k) => hex_chars(k),
                Option::None => Seq::<char>::empty(),
            }),
            r matches Err(e) ==> e == CertError::Unauthorized,
    {
        if !bytes_eq(caller.raw.as_slice(), self.controller.as_slice()) {
            return Err(CertError::Unauthorized);
        }
        match &self.public_key {
            Option::Some(k) => Ok(hex_string(k.as_slice())),
            Option::None => Ok(String::new()),
        }
    }
}

} // verus!
