//! The RSA stages' decisions. The cryptography itself — whose
//! encryption output is randomized, so no deterministic transform
//! contract can hold it — is a driver's business; which key bytes, key
//! format, padding scheme and hash the options pick is decided here,
//! verified.

use vstd::prelude::*;

use crate::CodecMode;
use crate::bytes::{byte_name, byte_name2, bytes_eq, copy_bytes};
use crate::errors::{CodecError, ErrModel};
use crate::options::Options;
use vstd::string::{StringSliceAdditionalSpecFns, StringExecFns};

verus! {

pub const N_UPPER_P: u8 = 80;

pub const N_UPPER_S: u8 = 83;

pub const N_UPPER_K: u8 = 75;

pub const N_UPPER_H: u8 = 72;

pub const N_DIGIT_8: u8 = 56;

pub const N_LOWER_D: u8 = 100;

pub const N_LOWER_R: u8 = 114;

#[derive(PartialEq, Eq, Structural)]
pub enum KeyType {
    Pkcs1,
    Pkcs8,
}

#[derive(PartialEq, Eq, Structural)]
pub enum KeyEncoding {
    Pem,
    Der,
}

#[derive(PartialEq, Eq, Structural)]
pub enum PaddingChoice {
    OaepSha1,
    OaepSha256,
    Pkcs15,
}

/// What a driver must do for an `rsa-crypt` stage.
pub struct RsaCryptPlan {
    pub decrypt: bool,
    pub padding: PaddingChoice,
    pub key_type: KeyType,
    pub key_encoding: KeyEncoding,
    pub key: Vec<u8>,
}

/// The key format switches: `-8` picks PKCS#8 over PKCS#1, `-dr` DER
/// over PEM.
pub open spec fn sp_key_type(opts: Map<Seq<u8>, Option<Seq<u8>>>) -> KeyType {
    if opts.contains_key(seq![N_DIGIT_8]) {
        KeyType::Pkcs8
    } else {
        KeyType::Pkcs1
    }
}

pub open spec fn sp_key_encoding(opts: Map<Seq<u8>, Option<Seq<u8>>>) -> KeyEncoding {
    if opts.contains_key(seq![N_LOWER_D, N_LOWER_R]) {
        KeyEncoding::Der
    } else {
        KeyEncoding::Pem
    }
}

/// The padding scheme the `PS` and `H` options pick: `oaep` with
/// `sha1` or `sha256` (the defaults are `oaep` and `sha256`), or
/// `pkcs15`; anything else is a stage error naming the bad value.
pub open spec fn sp_padding_choice(opts: Map<Seq<u8>, Option<Seq<u8>>>) -> Result<
    PaddingChoice,
    ErrModel,
> {
    let ps: Seq<u8> = if opts.contains_key(seq![N_UPPER_P, N_UPPER_S]) && opts[seq![
        N_UPPER_P,
        N_UPPER_S,
    ]] is Some {
        opts[seq![N_UPPER_P, N_UPPER_S]]->0
    } else {
        "oaep".spec_bytes()
    };
    let h: Seq<u8> = if opts.contains_key(seq![N_UPPER_H]) && opts[seq![N_UPPER_H]] is Some {
        opts[seq![N_UPPER_H]]->0
    } else {
        "sha256".spec_bytes()
    };
    if ps == "oaep".spec_bytes() {
        if h == "sha1".spec_bytes() {
            Ok(PaddingChoice::OaepSha1)
        } else if h == "sha256".spec_bytes() {
            Ok(PaddingChoice::OaepSha256)
        } else {
            Err(ErrModel::Transform(h))
        }
    } else if ps == "pkcs15".spec_bytes() {
        Ok(PaddingChoice::Pkcs15)
    } else {
        Err(ErrModel::Transform(ps))
    }
}

/// The RSA encryption stage: public-key encrypt, private-key decrypt.
#[derive(Default)]
pub struct RsaCryptCodec;

impl RsaCryptCodec {
    /// Decides everything but the cryptography: direction, padding,
    /// key format, and which key option is required — `-PK` when
    /// encrypting, `-SK` when decrypting.
    pub fn plan(&self, mode: CodecMode, options: &Options) -> (r: Result<RsaCryptPlan, CodecError>)
        requires
            options.wf(),
        ensures
            match r {
                Ok(p) => ({
                    &&& sp_padding_choice(options@) == Ok::<PaddingChoice, ErrModel>(p.padding)
                    &&& p.decrypt == (mode is Decoding)
                    &&& p.key_type == sp_key_type(options@)
                    &&& p.key_encoding == sp_key_encoding(options@)
                    &&& ({
                        let kn = if mode is Decoding {
                            seq![N_UPPER_S, N_UPPER_K]
                        } else {
                            seq![N_UPPER_P, N_UPPER_K]
                        };
                        options@.contains_key(kn) && options@[kn] == Some(p.key@)
                    })
                }),
                Err(e) => ({
                    ||| sp_padding_choice(options@) == Err::<PaddingChoice, ErrModel>(e@)
                    ||| ({
                        let kn = if mode is Decoding {
                            seq![N_UPPER_S, N_UPPER_K]
                        } else {
                            seq![N_UPPER_P, N_UPPER_K]
                        };
                        !(options@.contains_key(kn) && options@[kn] is Some)
                            && (e@ == ErrModel::Transform(
                            "rsa: missing required option public key (-PK)".spec_bytes(),
                        ) || e@ == ErrModel::Transform(
                            "rsa: missing required option private key (-SK)".spec_bytes(),
                        ))
                    })
                }),
            },
    {
        let ps_name = byte_name2(N_UPPER_P, N_UPPER_S);
        let h_name = byte_name(N_UPPER_H);
        let ps = match options.get_text_raw(ps_name.as_slice()) {
            Some(v) => v,
            None => copy_bytes("oaep".as_bytes()),
        };
        let h = match options.get_text_raw(h_name.as_slice()) {
            Some(v) => v,
            None => copy_bytes("sha256".as_bytes()),
        };
        let padding = if bytes_eq(ps.as_slice(), "oaep".as_bytes()) {
            if bytes_eq(h.as_slice(), "sha1".as_bytes()) {
                PaddingChoice::OaepSha1
            } else if bytes_eq(h.as_slice(), "sha256".as_bytes()) {
                PaddingChoice::OaepSha256
            } else {
                return Err(CodecError::Transform(h));
            }
        } else if bytes_eq(ps.as_slice(), "pkcs15".as_bytes()) {
            PaddingChoice::Pkcs15
        } else {
            return Err(CodecError::Transform(ps));
        };
        let eight = byte_name(N_DIGIT_8);
        let key_type = if options.get_switch(eight.as_slice()) {
            KeyType::Pkcs8
        } else {
            KeyType::Pkcs1
        };
        let dr = byte_name2(N_LOWER_D, N_LOWER_R);
        let key_encoding = if options.get_switch(dr.as_slice()) {
            KeyEncoding::Der
        } else {
            KeyEncoding::Pem
        };
        let decrypt = match mode {
            CodecMode::Decoding => true,
            CodecMode::Encoding => false,
        };
        let key = if decrypt {
            let sk = byte_name2(N_UPPER_S, N_UPPER_K);
            match options.get_text_raw(sk.as_slice()) {
                Some(v) => v,
                None => {
                    return Err(
                        CodecError::Transform(
                            copy_bytes("rsa: missing required option private key (-SK)".as_bytes()),
                        ),
                    );
                },
            }
        } else {
            let pk = byte_name2(N_UPPER_P, N_UPPER_K);
            match options.get_text_raw(pk.as_slice()) {
                Some(v) => v,
                None => {
                    return Err(
                        CodecError::Transform(
                            copy_bytes("rsa: missing required option public key (-PK)".as_bytes()),
                        ),
                    );
                },
            }
        };
        Ok(RsaCryptPlan { decrypt, padding, key_type, key_encoding, key })
    }
}

/// What a driver must do for an `rsa-sign` stage.
pub struct RsaSignPlan {
    pub verify: bool,
    pub hash: Option<PaddingChoice>,
    pub key_type: KeyType,
    pub key_encoding: KeyEncoding,
    pub key: Vec<u8>,
    pub signature: Option<Vec<u8>>,
}

/// The signing hash the `H` option picks: `sha1` or `sha256`, `None`
/// for the unprefixed scheme when the option is absent; anything else
/// is a stage error naming the bad value.
pub open spec fn sp_sign_hash_choice(opts: Map<Seq<u8>, Option<Seq<u8>>>) -> Result<
    Option<PaddingChoice>,
    ErrModel,
> {
    if opts.contains_key(seq![N_UPPER_H]) && opts[seq![N_UPPER_H]] is Some {
        let h = opts[seq![N_UPPER_H]]->0;
        if h == "sha1".spec_bytes() {
            Ok(Some(PaddingChoice::OaepSha1))
        } else if h == "sha256".spec_bytes() {
            Ok(Some(PaddingChoice::OaepSha256))
        } else {
            Err(ErrModel::Transform(h))
        }
    } else {
        Ok(None)
    }
}

/// The key option a signature stage needs: the public key to verify,
/// the private key to sign.
pub open spec fn sp_sign_key_name(mode: CodecMode) -> Seq<u8> {
    if mode is Decoding {
        seq![N_UPPER_P, N_UPPER_K]
    } else {
        seq![N_UPPER_S, N_UPPER_K]
    }
}

/// The RSA signature stage: private-key sign, public-key verify. Its
/// hash choice: `sha1`, `sha256`, or an unprefixed scheme when `-H` is
/// absent; verification also requires the `-S` signature bytes.
#[derive(Default)]
pub struct RsaSignCodec;

impl RsaSignCodec {
    /// Decides everything but the cryptography for a signature stage.
    pub fn plan(&self, mode: CodecMode, options: &Options) -> (r: Result<RsaSignPlan, CodecError>)
        requires
            options.wf(),
        ensures
            match r {
                Ok(p) => ({
                    &&& sp_sign_hash_choice(options@) == Ok::<Option<PaddingChoice>, ErrModel>(
                        p.hash,
                    )
                    &&& p.verify == (mode is Decoding)
                    &&& p.key_type == sp_key_type(options@)
                    &&& p.key_encoding == sp_key_encoding(options@)
                    &&& options@.contains_key(sp_sign_key_name(mode))
                    &&& options@[sp_sign_key_name(mode)] == Some(p.key@)
                    &&& (if mode is Decoding {
                        &&& options@.contains_key(seq![N_UPPER_S])
                        &&& (p.signature matches Some(sg) && options@[seq![N_UPPER_S]] == Some(
                            sg@,
                        ))
                    } else {
                        p.signature is None
                    })
                }),
                Err(e) => ({
                    ||| sp_sign_hash_choice(options@) == Err::<Option<PaddingChoice>, ErrModel>(
                        e@,
                    )
                    ||| ({
                        &&& sp_sign_hash_choice(options@) is Ok
                        &&& !(options@.contains_key(sp_sign_key_name(mode))
                            && options@[sp_sign_key_name(mode)] is Some)
                        &&& (e@ == ErrModel::Transform(
                            "rsa: missing required option public key (-PK)".spec_bytes(),
                        ) || e@ == ErrModel::Transform(
                            "rsa: missing required option private key (-SK)".spec_bytes(),
                        ))
                    })
                    ||| ({
                        &&& sp_sign_hash_choice(options@) is Ok
                        &&& options@.contains_key(sp_sign_key_name(mode))
                        &&& mode is Decoding
                        &&& !(options@.contains_key(seq![N_UPPER_S]) && options@[seq![
                            N_UPPER_S,
                        ]] is Some)
                        &&& e@ == ErrModel::Transform(
                            "rsa: missing required option signature (-S)".spec_bytes(),
                        )
                    })
                }),
            },
    {
        let h_name = byte_name(N_UPPER_H);
        let hash = match options.get_text_raw(h_name.as_slice()) {
            Some(v) => {
                if bytes_eq(v.as_slice(), "sha1".as_bytes()) {
                    Some(PaddingChoice::OaepSha1)
                } else if bytes_eq(v.as_slice(), "sha256".as_bytes()) {
                    Some(PaddingChoice::OaepSha256)
                } else {
                    return Err(CodecError::Transform(v));
                }
            },
            None => None,
        };
        let eight = byte_name(N_DIGIT_8);
        let key_type = if options.get_switch(eight.as_slice()) {
            KeyType::Pkcs8
        } else {
            KeyType::Pkcs1
        };
        let dr = byte_name2(N_LOWER_D, N_LOWER_R);
        let key_encoding = if options.get_switch(dr.as_slice()) {
            KeyEncoding::Der
        } else {
            KeyEncoding::Pem
        };
        let verify = match mode {
            CodecMode::Decoding => true,
            CodecMode::Encoding => false,
        };
        let key = if verify {
            let pk = byte_name2(N_UPPER_P, N_UPPER_K);
            match options.get_text_raw(pk.as_slice()) {
                Some(v) => v,
                None => {
                    return Err(
                        CodecError::Transform(
                            copy_bytes("rsa: missing required option public key (-PK)".as_bytes()),
                        ),
                    );
                },
            }
        } else {
            let sk = byte_name2(N_UPPER_S, N_UPPER_K);
            match options.get_text_raw(sk.as_slice()) {
                Some(v) => v,
                None => {
                    return Err(
                        CodecError::Transform(
                            copy_bytes("rsa: missing required option private key (-SK)".as_bytes()),
                        ),
                    );
                },
            }
        };
        let signature = if verify {
            let s_name = byte_name(N_UPPER_S);
            match options.get_text_raw(s_name.as_slice()) {
                Some(v) => Some(v),
                None => {
                    return Err(
                        CodecError::Transform(
                            copy_bytes("rsa: missing required option signature (-S)".as_bytes()),
                        ),
                    );
                },
            }
        } else {
            None
        };
        Ok(RsaSignPlan { verify, hash, key_type, key_encoding, key, signature })
    }
}

} // verus!
