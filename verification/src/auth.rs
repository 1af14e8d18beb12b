use vstd::prelude::*;
use crate::connection::AdbDeviceConnection;
use crate::enums::InterfaceType;
use crate::errors::AdbConnectionError;
use crate::connection::{spec_cnxn_banner, spec_exchange_error};
use vstd::string::StringSliceAdditionalSpecFns;
use crate::message::{AdbMessage, MAX_ADB_DATA, ADB_SERVER_VERSION, AUTH_CODE, CNXN_CODE,
    OPEN_CODE, spec_message_chunks, spec_u32_from_le};
use crate::tinfo::AdbTransactionInfo;
use crate::transport::Transport;
use rsa::pkcs8::DecodePrivateKey;

verus! {

/// AUTH type 2: a token signed with the private key.
pub const AUTH_SIGNATURE: u32 = 2;

/// AUTH type 3: the public key, for the user to accept on the device.
pub const AUTH_RSA_PUBLIC_KEY: u32 = 3;

/// The PKCS#1 v1.5 signature of a message under the RSA private key
/// carried by a PKCS#8 PEM document.  Signing without a blinding RNG is
/// a deterministic function of the key and the message alone, so the
/// result only carries a name here; `sign_with_key` computes it.
pub uninterp spec fn rsa_pkcs1v15_signature(key_pem: Seq<char>, message: Seq<u8>) -> Seq<u8>;

/// Relies on rsa's `RsaPrivateKey::from_pkcs8_pem` and
/// `RsaPrivateKey::sign` with `Pkcs1v15Sign::new_unprefixed`: parsing is
/// a pure function of the PEM text, and signing without an RNG pads
/// deterministically, so a success returns exactly the signature named
/// above.  A bad PEM or an oversized message fails with the library's
/// message.
#[verifier::external_body]
fn sign_with_key(key_pem: &str, message: &[u8]) -> (r: Result<Vec<u8>, String>)
    ensures
        r matches Ok(sig) ==> sig@ == rsa_pkcs1v15_signature(key_pem@, message@),
{
    let key = match rsa::RsaPrivateKey::from_pkcs8_pem(key_pem) {
        Ok(k) => k,
        Err(e) => {
            return Err(e.to_string());
        },
    };
    match key.sign(rsa::Pkcs1v15Sign::new_unprefixed(), message) {
        Ok(sig) => Ok(sig),
        Err(e) => Err(e.to_string()),
    }
}

/// The 15-byte DigestInfo prefix naming SHA-1, prepended to a challenge
/// token before it is signed.
pub open spec fn spec_sha1_digest_info_prefix() -> Seq<u8> {
    seq![
        0x30u8,
        0x21u8,
        0x30u8,
        0x09u8,
        0x06u8,
        0x05u8,
        0x2bu8,
        0x0eu8,
        0x03u8,
        0x02u8,
        0x1au8,
        0x05u8,
        0x00u8,
        0x04u8,
        0x14u8,
    ]
}

/// The SHA-1 DigestInfo prefix as bytes.
pub fn sha1_digest_info_prefix() -> (r: Vec<u8>)
    ensures
        r@ == spec_sha1_digest_info_prefix(),
{
    let mut v: Vec<u8> = Vec::new();
    v.push(0x30);
    v.push(0x21);
    v.push(0x30);
    v.push(0x09);
    v.push(0x06);
    v.push(0x05);
    v.push(0x2b);
    v.push(0x0e);
    v.push(0x03);
    v.push(0x02);
    v.push(0x1a);
    v.push(0x05);
    v.push(0x00);
    v.push(0x04);
    v.push(0x14);
    proof {
        assert(v@ =~= spec_sha1_digest_info_prefix());
    }
    v
}

/// Signs an authentication challenge: the SHA-1 DigestInfo prefix is
/// prepended to the token and the whole is signed PKCS#1 v1.5.
pub fn sign_token(key_pem: &str, token: &[u8]) -> (r: Result<Vec<u8>, String>)
    ensures
        r matches Ok(sig) ==> sig@ == rsa_pkcs1v15_signature(
            key_pem@,
            spec_sha1_digest_info_prefix() + token@,
        ),
{
    let mut data_to_sign = sha1_digest_info_prefix();
    let mut t = vstd::slice::slice_to_vec(token);
    data_to_sign.append(&mut t);
    proof {
        assert(data_to_sign@ =~= spec_sha1_digest_info_prefix() + token@);
    }
    sign_with_key(key_pem, data_to_sign.as_slice())
}

impl<T: Transport> AdbDeviceConnection<T> {
    /// Connects to the device: claims the ADB USB interface, greets with
    /// CNXN, and completes the device's choice of follow-up — an OPEN
    /// means the device already trusts this host, an AUTH challenge
    /// enters the authentication exchange; anything else is a protocol
    /// violation.
    pub fn adb_connect(&mut self, host_name: &str, attempts: u64, data_timeout_ms: u64) -> (r:
        Result<(), AdbConnectionError>)
        requires
            old(self).wf(),
        ensures
            final(self).wf(),
            r matches Err(e) ==> e is Unauthorized || spec_exchange_error(e),
            r is Ok ==> ({
                let n = old(self).spec_delivered().len() as int;
                let d = final(self).spec_delivered();
                let cnxn = spec_message_chunks(
                    CNXN_CODE,
                    ADB_SERVER_VERSION,
                    MAX_ADB_DATA,
                    spec_cnxn_banner(host_name.spec_bytes()),
                );
                &&& old(self).spec_delivered().is_prefix_of(d)
                &&& d.len() == n + 1
                &&& (d[n].spec_command() == AUTH_CODE || d[n].spec_command() == OPEN_CODE)
                &&& (old(self).spec_sent() + cnxn).is_prefix_of(final(self).spec_sent())
                &&& d[n].spec_command() == OPEN_CODE ==> final(self).spec_sent() == old(
                    self,
                ).spec_sent() + cnxn
            }),
            r matches Err(AdbConnectionError::Unauthorized(_)) ==> ({
                let n = old(self).spec_delivered().len() as int;
                let d = final(self).spec_delivered();
                &&& d.len() == n + 1
                &&& d[n].spec_command() == AUTH_CODE
            }),
    {
        match self.acquire_device(InterfaceType::android_usb()) {
            Ok(()) => {
            },
            Err(err) => {
                return Err(err);
            },
        }
        match self.send_cnxn_command(host_name, None) {
            Ok(()) => {
            },
            Err(err) => {
                return Err(err);
            },
        }
        let cnxn_transaction_info = AdbTransactionInfo::new(0, 1);
        let expected: [u32; 2] = [AUTH_CODE, OPEN_CODE];
        let response = match self.read_expected_packet(
            expected.as_slice(),
            None,
            &cnxn_transaction_info,
            attempts,
            data_timeout_ms,
        ) {
            Ok(m) => m,
            Err(err) => {
                return Err(err);
            },
        };
        proof {
            assert(expected@[0] == AUTH_CODE && expected@[1] == OPEN_CODE);
            assert(response.spec_command() == AUTH_CODE || response.spec_command()
                == OPEN_CODE) by {
                let k = choose|k: int|
                    0 <= k < expected@.len() && expected@[k] == response.spec_command();
            }
            assert(old(self).spec_delivered().is_prefix_of(self.spec_delivered())) by {
                assert(self.spec_delivered().subrange(
                    0,
                    old(self).spec_delivered().len() as int,
                ) =~= old(self).spec_delivered());
            }
            assert((old(self).spec_sent() + spec_message_chunks(
                CNXN_CODE,
                ADB_SERVER_VERSION,
                MAX_ADB_DATA,
                spec_cnxn_banner(host_name.spec_bytes()),
            )).is_prefix_of(self.spec_sent())) by {
                assert(self.spec_sent().subrange(0, self.spec_sent().len() as int)
                    =~= self.spec_sent());
            }
        }
        if response.command() == AUTH_CODE {
            match self.adb_authenticate(&response, attempts, data_timeout_ms) {
                Ok(()) => Ok(()),
                Err(err) => Err(AdbConnectionError::Unauthorized(err.message())),
            }
        } else if response.command() == OPEN_CODE {
            Ok(())
        } else {
            Err(AdbConnectionError::UnexpectedError(
                "Unknown response while establishing the connection".to_owned(),
            ))
        }
    }

    /// Answers an AUTH challenge: sends the signed token, and, if the
    /// device does not reply with CNXN, falls back to sending the public
    /// key; the user must then accept it on the device, and the next
    /// connect cycle completes.
    pub fn adb_authenticate(
        &mut self,
        adb_message: &AdbMessage,
        attempts: u64,
        data_timeout_ms: u64,
    ) -> (r: Result<(), AdbConnectionError>)
        requires
            old(self).wf(),
        ensures
            final(self).wf(),
            final(self).spec_delivered() == old(self).spec_delivered(),
            old(self).spec_sent().is_prefix_of(final(self).spec_sent()),
            r matches Err(e) ==> e is Unauthorized || spec_exchange_error(e),
            r is Ok ==> ({
                let auth2 = spec_message_chunks(
                    AUTH_CODE,
                    AUTH_SIGNATURE,
                    0,
                    rsa_pkcs1v15_signature(
                        old(self).spec_private_key(),
                        spec_sha1_digest_info_prefix() + adb_message.spec_data(),
                    ),
                );
                let auth3 = spec_message_chunks(
                    AUTH_CODE,
                    AUTH_RSA_PUBLIC_KEY,
                    0,
                    old(self).spec_public_key(),
                );
                let r0 = old(self).spec_received().len() as int;
                &&& {
                    ||| final(self).spec_sent() == old(self).spec_sent() + auth2
                    ||| final(self).spec_sent() == old(self).spec_sent() + auth2 + auth3
                }
                &&& r0 < final(self).spec_received().len()
                &&& final(self).spec_received()[r0].len() == 24
                &&& (final(self).spec_sent() == old(self).spec_sent() + auth2
                    ==> spec_u32_from_le(
                    final(self).spec_received()[r0][0],
                    final(self).spec_received()[r0][1],
                    final(self).spec_received()[r0][2],
                    final(self).spec_received()[r0][3],
                ) == CNXN_CODE)
            }),
    {
        let key_pem = self.private_key_pem_string();
        let public_key = self.public_key_bytes();
        let signed_token = match sign_token(key_pem.as_str(), adb_message.data().as_slice()) {
            Ok(sig) => sig,
            Err(err) => {
                let mut m = "Failed to sign ADB keys. Please verify that the key is valid and properly configured: ".to_owned();
                m.append(err.as_str());
                return Err(AdbConnectionError::Unauthorized(m));
            },
        };
        if signed_token.len() > MAX_ADB_DATA as usize {
            return Err(AdbConnectionError::Unauthorized(
                "Signature exceeds the packet payload limit".to_owned(),
            ));
        }
        let auth_message = AdbMessage::new(AUTH_CODE, AUTH_SIGNATURE, 0, signed_token);
        match self.send_adb_message(&auth_message, None) {
            Ok(()) => {
            },
            Err(err) => {
                return Err(err);
            },
        }
        let ghost r0 = self.spec_received().len() as int;
        let response = match self.read_raw_message(data_timeout_ms) {
            Ok(m) => m,
            Err(err) => {
                return Err(crate::errors::map_io_error(err));
            },
        };
        proof {
            assert(r0 == old(self).spec_received().len() as int);
        }
        if response.command() == CNXN_CODE {
            proof {
                assert(spec_u32_from_le(
                    self.spec_received()[r0][0],
                    self.spec_received()[r0][1],
                    self.spec_received()[r0][2],
                    self.spec_received()[r0][3],
                ) == CNXN_CODE);
            }
            return Ok(());
        }
        if public_key.len() > MAX_ADB_DATA as usize {
            return Err(AdbConnectionError::Unauthorized(
                "Public key exceeds the packet payload limit".to_owned(),
            ));
        }
        let auth_message = AdbMessage::new(AUTH_CODE, AUTH_RSA_PUBLIC_KEY, 0, public_key);
        match self.send_adb_message(&auth_message, None) {
            Ok(()) => {
            },
            Err(err) => {
                return Err(err);
            },
        }
        let ghost received_mid = self.spec_received();
        let ghost sent_before_final = self.spec_sent();
        let r = match self.read_raw_message(data_timeout_ms) {
            Ok(_) => Ok(()),
            Err(err) => Err(AdbConnectionError::Unauthorized(err.message())),
        };
        proof {
            if r is Ok {
                assert(self.spec_received()[r0] == received_mid[r0]) by {
                    assert(self.spec_received().subrange(0, received_mid.len() as int)[r0]
                        == received_mid[r0]);
                }
                let auth2 = spec_message_chunks(
                    AUTH_CODE,
                    AUTH_SIGNATURE,
                    0,
                    rsa_pkcs1v15_signature(
                        old(self).spec_private_key(),
                        spec_sha1_digest_info_prefix() + adb_message.spec_data(),
                    ),
                );
                let auth3 = spec_message_chunks(
                    AUTH_CODE,
                    AUTH_RSA_PUBLIC_KEY,
                    0,
                    old(self).spec_public_key(),
                );
                assert(auth3.len() >= 1);
                assert(self.spec_sent().len() > old(self).spec_sent().len() + auth2.len());
            }
            assert(old(self).spec_sent().is_prefix_of(self.spec_sent())) by {
                assert(self.spec_sent().subrange(0, old(self).spec_sent().len() as int)
                    =~= old(self).spec_sent());
            }
        }
        r
    }
}

} // verus!
