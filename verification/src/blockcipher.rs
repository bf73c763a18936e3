//! Block cipher transforms: AES and SM4 in CBC or ECB mode with PKCS#7
//! padding. The cipher arithmetic is the outside crates' business; its
//! results are named per cipher and mode, and the engine keeps the key
//! and IV option handling — lengths included — verified. Encryption
//! always pads, so the output is the input rounded up one whole block;
//! decryption rejects a stream that is not whole blocks or unpads
//! wrongly.

use vstd::prelude::*;

use crate::CodecMode;
use crate::bytes::{byte_name, byte_name2, copy_bytes, push_bytes};
use crate::codec_trait::{Codec, CodecUsage};
use crate::errors::{CodecError, ErrModel};
use crate::filestore::FileStore;
use crate::options::{dec_repr, u128_to_dec, Options};
use crate::registry::CodecMetaInfo;
use vstd::string::{StringSliceAdditionalSpecFns, StringExecFns};

verus! {

pub const N_UPPER_K: u8 = 75;

pub const N_UPPER_I: u8 = 73;

pub const N_UPPER_V: u8 = 86;

/// What AES-PKCS#7 encryption yields for a mode (`cbc`), key, IV and
/// input; the key length picks the AES variant. A function of the
/// arguments alone.
pub uninterp spec fn aes_encrypt_of(cbc: bool, key: Seq<u8>, iv: Seq<u8>, data: Seq<u8>) -> Seq<
    u8,
>;

/// What AES-PKCS#7 decryption accepts and yields; `None` where the
/// stream is not whole blocks or unpads wrongly.
pub uninterp spec fn aes_decrypt_of(cbc: bool, key: Seq<u8>, iv: Seq<u8>, data: Seq<u8>) -> Option<
    Seq<u8>,
>;

/// As `aes_encrypt_of`, for SM4.
pub uninterp spec fn sm4_encrypt_of(cbc: bool, key: Seq<u8>, iv: Seq<u8>, data: Seq<u8>) -> Seq<
    u8,
>;

/// As `aes_decrypt_of`, for SM4.
pub uninterp spec fn sm4_decrypt_of(cbc: bool, key: Seq<u8>, iv: Seq<u8>, data: Seq<u8>) -> Option<
    Seq<u8>,
>;

/// Relies on `block_modes::Cbc::<aes::Aes128, Pkcs7>` via
/// `BlockMode::new_from_slices` and `encrypt_vec`: with the key and IV
/// lengths right construction cannot fail, and PKCS#7 always pads.
/// `decrypt_vec` under the same key and IV undoes it — the source's own
/// pairing of pad-then-encrypt with decrypt-then-unpad.
#[verifier::external_body]
fn aes128_cbc_encrypt(key: &[u8], iv: &[u8], data: &[u8]) -> (r: Vec<u8>)
    requires
        key@.len() == 16,
        iv@.len() == 16,
    ensures
        r@ == aes_encrypt_of(true, key@, iv@, data@),
        r@.len() == (data@.len() / 16 + 1) * 16,
        aes_decrypt_of(true, key@, iv@, r@) == Some(data@),
{
    let c: block_modes::Cbc<aes::Aes128, block_modes::block_padding::Pkcs7> =
        block_modes::BlockMode::new_from_slices(key, iv).expect("checked lengths");
    block_modes::BlockMode::encrypt_vec(c, data)
}

/// As `aes128_cbc_encrypt`, for `aes::Aes192` (24-byte keys).
#[verifier::external_body]
fn aes192_cbc_encrypt(key: &[u8], iv: &[u8], data: &[u8]) -> (r: Vec<u8>)
    requires
        key@.len() == 24,
        iv@.len() == 16,
    ensures
        r@ == aes_encrypt_of(true, key@, iv@, data@),
        r@.len() == (data@.len() / 16 + 1) * 16,
        aes_decrypt_of(true, key@, iv@, r@) == Some(data@),
{
    let c: block_modes::Cbc<aes::Aes192, block_modes::block_padding::Pkcs7> =
        block_modes::BlockMode::new_from_slices(key, iv).expect("checked lengths");
    block_modes::BlockMode::encrypt_vec(c, data)
}

/// As `aes128_cbc_encrypt`, for `aes::Aes256` (32-byte keys).
#[verifier::external_body]
fn aes256_cbc_encrypt(key: &[u8], iv: &[u8], data: &[u8]) -> (r: Vec<u8>)
    requires
        key@.len() == 32,
        iv@.len() == 16,
    ensures
        r@ == aes_encrypt_of(true, key@, iv@, data@),
        r@.len() == (data@.len() / 16 + 1) * 16,
        aes_decrypt_of(true, key@, iv@, r@) == Some(data@),
{
    let c: block_modes::Cbc<aes::Aes256, block_modes::block_padding::Pkcs7> =
        block_modes::BlockMode::new_from_slices(key, iv).expect("checked lengths");
    block_modes::BlockMode::encrypt_vec(c, data)
}

/// Relies on `block_modes::Ecb::<aes::Aes128, Pkcs7>`: ECB takes no IV.
#[verifier::external_body]
fn aes128_ecb_encrypt(key: &[u8], data: &[u8]) -> (r: Vec<u8>)
    requires
        key@.len() == 16,
    ensures
        r@ == aes_encrypt_of(false, key@, Seq::empty(), data@),
        r@.len() == (data@.len() / 16 + 1) * 16,
        aes_decrypt_of(false, key@, Seq::empty(), r@) == Some(data@),
{
    let c: block_modes::Ecb<aes::Aes128, block_modes::block_padding::Pkcs7> =
        block_modes::BlockMode::new_from_slices(key, &[]).expect("checked lengths");
    block_modes::BlockMode::encrypt_vec(c, data)
}

/// As `aes128_ecb_encrypt`, for `aes::Aes192`.
#[verifier::external_body]
fn aes192_ecb_encrypt(key: &[u8], data: &[u8]) -> (r: Vec<u8>)
    requires
        key@.len() == 24,
    ensures
        r@ == aes_encrypt_of(false, key@, Seq::empty(), data@),
        r@.len() == (data@.len() / 16 + 1) * 16,
        aes_decrypt_of(false, key@, Seq::empty(), r@) == Some(data@),
{
    let c: block_modes::Ecb<aes::Aes192, block_modes::block_padding::Pkcs7> =
        block_modes::BlockMode::new_from_slices(key, &[]).expect("checked lengths");
    block_modes::BlockMode::encrypt_vec(c, data)
}

/// As `aes128_ecb_encrypt`, for `aes::Aes256`.
#[verifier::external_body]
fn aes256_ecb_encrypt(key: &[u8], data: &[u8]) -> (r: Vec<u8>)
    requires
        key@.len() == 32,
    ensures
        r@ == aes_encrypt_of(false, key@, Seq::empty(), data@),
        r@.len() == (data@.len() / 16 + 1) * 16,
        aes_decrypt_of(false, key@, Seq::empty(), r@) == Some(data@),
{
    let c: block_modes::Ecb<aes::Aes256, block_modes::block_padding::Pkcs7> =
        block_modes::BlockMode::new_from_slices(key, &[]).expect("checked lengths");
    block_modes::BlockMode::encrypt_vec(c, data)
}

/// Relies on `BlockMode::decrypt_vec` for `Cbc<aes::Aes128, Pkcs7>`:
/// deterministic, `Err` on a non-block-multiple or bad padding.
#[verifier::external_body]
fn aes128_cbc_decrypt(key: &[u8], iv: &[u8], data: &[u8]) -> (r: Option<Vec<u8>>)
    requires
        key@.len() == 16,
        iv@.len() == 16,
    ensures
        match r {
            Some(v) => aes_decrypt_of(true, key@, iv@, data@) == Some(v@),
            None => aes_decrypt_of(true, key@, iv@, data@) is None,
        },
        data@.len() % 16 != 0 ==> r is None,
{
    let c: block_modes::Cbc<aes::Aes128, block_modes::block_padding::Pkcs7> =
        block_modes::BlockMode::new_from_slices(key, iv).expect("checked lengths");
    block_modes::BlockMode::decrypt_vec(c, data).ok()
}

/// As `aes128_cbc_decrypt`, for `aes::Aes192`.
#[verifier::external_body]
fn aes192_cbc_decrypt(key: &[u8], iv: &[u8], data: &[u8]) -> (r: Option<Vec<u8>>)
    requires
        key@.len() == 24,
        iv@.len() == 16,
    ensures
        match r {
            Some(v) => aes_decrypt_of(true, key@, iv@, data@) == Some(v@),
            None => aes_decrypt_of(true, key@, iv@, data@) is None,
        },
        data@.len() % 16 != 0 ==> r is None,
{
    let c: block_modes::Cbc<aes::Aes192, block_modes::block_padding::Pkcs7> =
        block_modes::BlockMode::new_from_slices(key, iv).expect("checked lengths");
    block_modes::BlockMode::decrypt_vec(c, data).ok()
}

/// As `aes128_cbc_decrypt`, for `aes::Aes256`.
#[verifier::external_body]
fn aes256_cbc_decrypt(key: &[u8], iv: &[u8], data: &[u8]) -> (r: Option<Vec<u8>>)
    requires
        key@.len() == 32,
        iv@.len() == 16,
    ensures
        match r {
            Some(v) => aes_decrypt_of(true, key@, iv@, data@) == Some(v@),
            None => aes_decrypt_of(true, key@, iv@, data@) is None,
        },
        data@.len() % 16 != 0 ==> r is None,
{
    let c: block_modes::Cbc<aes::Aes256, block_modes::block_padding::Pkcs7> =
        block_modes::BlockMode::new_from_slices(key, iv).expect("checked lengths");
    block_modes::BlockMode::decrypt_vec(c, data).ok()
}

/// As `aes128_cbc_decrypt`, for `Ecb<aes::Aes128, Pkcs7>`.
#[verifier::external_body]
fn aes128_ecb_decrypt(key: &[u8], data: &[u8]) -> (r: Option<Vec<u8>>)
    requires
        key@.len() == 16,
    ensures
        match r {
            Some(v) => aes_decrypt_of(false, key@, Seq::empty(), data@) == Some(v@),
            None => aes_decrypt_of(false, key@, Seq::empty(), data@) is None,
        },
        data@.len() % 16 != 0 ==> r is None,
{
    let c: block_modes::Ecb<aes::Aes128, block_modes::block_padding::Pkcs7> =
        block_modes::BlockMode::new_from_slices(key, &[]).expect("checked lengths");
    block_modes::BlockMode::decrypt_vec(c, data).ok()
}

/// As `aes128_ecb_decrypt`, for `aes::Aes192`.
#[verifier::external_body]
fn aes192_ecb_decrypt(key: &[u8], data: &[u8]) -> (r: Option<Vec<u8>>)
    requires
        key@.len() == 24,
    ensures
        match r {
            Some(v) => aes_decrypt_of(false, key@, Seq::empty(), data@) == Some(v@),
            None => aes_decrypt_of(false, key@, Seq::empty(), data@) is None,
        },
        data@.len() % 16 != 0 ==> r is None,
{
    let c: block_modes::Ecb<aes::Aes192, block_modes::block_padding::Pkcs7> =
        block_modes::BlockMode::new_from_slices(key, &[]).expect("checked lengths");
    block_modes::BlockMode::decrypt_vec(c, data).ok()
}

/// As `aes128_ecb_decrypt`, for `aes::Aes256`.
#[verifier::external_body]
fn aes256_ecb_decrypt(key: &[u8], data: &[u8]) -> (r: Option<Vec<u8>>)
    requires
        key@.len() == 32,
    ensures
        match r {
            Some(v) => aes_decrypt_of(false, key@, Seq::empty(), data@) == Some(v@),
            None => aes_decrypt_of(false, key@, Seq::empty(), data@) is None,
        },
        data@.len() % 16 != 0 ==> r is None,
{
    let c: block_modes::Ecb<aes::Aes256, block_modes::block_padding::Pkcs7> =
        block_modes::BlockMode::new_from_slices(key, &[]).expect("checked lengths");
    block_modes::BlockMode::decrypt_vec(c, data).ok()
}

/// As the AES wrappers, for `sm4::Sm4` in CBC mode (16-byte keys).
#[verifier::external_body]
fn sm4_cbc_encrypt(key: &[u8], iv: &[u8], data: &[u8]) -> (r: Vec<u8>)
    requires
        key@.len() == 16,
        iv@.len() == 16,
    ensures
        r@ == sm4_encrypt_of(true, key@, iv@, data@),
        r@.len() == (data@.len() / 16 + 1) * 16,
        sm4_decrypt_of(true, key@, iv@, r@) == Some(data@),
{
    let c: block_modes::Cbc<sm4::Sm4, block_modes::block_padding::Pkcs7> =
        block_modes::BlockMode::new_from_slices(key, iv).expect("checked lengths");
    block_modes::BlockMode::encrypt_vec(c, data)
}

/// As the AES wrappers, for `sm4::Sm4` in ECB mode.
#[verifier::external_body]
fn sm4_ecb_encrypt(key: &[u8], data: &[u8]) -> (r: Vec<u8>)
    requires
        key@.len() == 16,
    ensures
        r@ == sm4_encrypt_of(false, key@, Seq::empty(), data@),
        r@.len() == (data@.len() / 16 + 1) * 16,
        sm4_decrypt_of(false, key@, Seq::empty(), r@) == Some(data@),
{
    let c: block_modes::Ecb<sm4::Sm4, block_modes::block_padding::Pkcs7> =
        block_modes::BlockMode::new_from_slices(key, &[]).expect("checked lengths");
    block_modes::BlockMode::encrypt_vec(c, data)
}

/// As the AES decrypt wrappers, for `sm4::Sm4` in CBC mode.
#[verifier::external_body]
fn sm4_cbc_decrypt(key: &[u8], iv: &[u8], data: &[u8]) -> (r: Option<Vec<u8>>)
    requires
        key@.len() == 16,
        iv@.len() == 16,
    ensures
        match r {
            Some(v) => sm4_decrypt_of(true, key@, iv@, data@) == Some(v@),
            None => sm4_decrypt_of(true, key@, iv@, data@) is None,
        },
        data@.len() % 16 != 0 ==> r is None,
{
    let c: block_modes::Cbc<sm4::Sm4, block_modes::block_padding::Pkcs7> =
        block_modes::BlockMode::new_from_slices(key, iv).expect("checked lengths");
    block_modes::BlockMode::decrypt_vec(c, data).ok()
}

/// As the AES decrypt wrappers, for `sm4::Sm4` in ECB mode.
#[verifier::external_body]
fn sm4_ecb_decrypt(key: &[u8], data: &[u8]) -> (r: Option<Vec<u8>>)
    requires
        key@.len() == 16,
    ensures
        match r {
            Some(v) => sm4_decrypt_of(false, key@, Seq::empty(), data@) == Some(v@),
            None => sm4_decrypt_of(false, key@, Seq::empty(), data@) is None,
        },
        data@.len() % 16 != 0 ==> r is None,
{
    let c: block_modes::Ecb<sm4::Sm4, block_modes::block_padding::Pkcs7> =
        block_modes::BlockMode::new_from_slices(key, &[]).expect("checked lengths");
    block_modes::BlockMode::decrypt_vec(c, data).ok()
}

pub enum BlockCipherMode {
    Cbc,
    Ecb,
}

pub enum BlockCipherType {
    Aes,
    Sm4,
}

/// A block cipher stage; the cipher family and chaining mode are fixed
/// at registration, the key (and IV, for CBC) come from options.
pub struct AesCodec {
    pub mode: BlockCipherMode,
    pub cipher_type: BlockCipherType,
}

/// The message for a key whose length fits no variant of the cipher.
pub open spec fn sp_bad_key_len(keylen: nat) -> Seq<u8> {
    "invalid key length: ".spec_bytes() + dec_repr(keylen * 8) + "bit".spec_bytes()
}

fn mk_bad_key_len(keylen: usize) -> (r: Vec<u8>)
    ensures
        r@ == sp_bad_key_len(keylen as nat),
{
    let mut r = copy_bytes("invalid key length: ".as_bytes());
    let bits: u128 = (keylen as u128) * 8;
    let d = u128_to_dec(bits);
    push_bytes(&mut r, d.as_slice());
    push_bytes(&mut r, "bit".as_bytes());
    r
}

impl AesCodec {
    pub fn new_cbc() -> (r: AesCodec)
        ensures
            r.mode is Cbc && r.cipher_type is Aes,
    {
        AesCodec { mode: BlockCipherMode::Cbc, cipher_type: BlockCipherType::Aes }
    }

    pub fn new_ecb() -> (r: AesCodec)
        ensures
            r.mode is Ecb && r.cipher_type is Aes,
    {
        AesCodec { mode: BlockCipherMode::Ecb, cipher_type: BlockCipherType::Aes }
    }
}

/// What a block cipher stage yields: fetch the key (and IV under CBC),
/// check the key length against the cipher family, then encrypt or
/// decrypt the whole stream with PKCS#7 padding.
pub open spec fn sp_cipher_run(
    aes: bool,
    cbc: bool,
    input: Seq<u8>,
    mode: CodecMode,
    opts: Map<Seq<u8>, Option<Seq<u8>>>,
    store: Map<Seq<u8>, Seq<u8>>,
) -> Result<(Seq<u8>, Map<Seq<u8>, Seq<u8>>), ErrModel> {
    if !(opts.contains_key(seq![N_UPPER_K]) && opts[seq![N_UPPER_K]] is Some) {
        Err(ErrModel::Transform(if aes {
            "aes: missing required option key (-K)".spec_bytes()
        } else {
            "sm4: missing required option key (-K)".spec_bytes()
        }))
    } else {
        let key = opts[seq![N_UPPER_K]]->0;
        if cbc && !(opts.contains_key(seq![N_UPPER_I, N_UPPER_V]) && opts[seq![
            N_UPPER_I,
            N_UPPER_V,
        ]] is Some) {
            Err(ErrModel::Transform(if aes {
                "aes[cbc]: missing required option iv (-IV)".spec_bytes()
            } else {
                "sm4[cbc]: missing required option iv (-IV)".spec_bytes()
            }))
        } else {
            let iv: Seq<u8> = if cbc {
                opts[seq![N_UPPER_I, N_UPPER_V]]->0
            } else {
                Seq::empty()
            };
            let keylen_ok = if aes {
                key.len() == 16 || key.len() == 24 || key.len() == 32
            } else {
                key.len() == 16
            };
            if !keylen_ok {
                Err(ErrModel::Transform(sp_bad_key_len(key.len())))
            } else if cbc && iv.len() != 16 {
                Err(ErrModel::Transform("invalid iv length".spec_bytes()))
            } else {
                match mode {
                    CodecMode::Encoding => Ok(
                        (
                            if aes {
                                aes_encrypt_of(cbc, key, iv, input)
                            } else {
                                sm4_encrypt_of(cbc, key, iv, input)
                            },
                            store,
                        ),
                    ),
                    CodecMode::Decoding => {
                        let d = if aes {
                            aes_decrypt_of(cbc, key, iv, input)
                        } else {
                            sm4_decrypt_of(cbc, key, iv, input)
                        };
                        match d {
                            Some(v) => Ok((v, store)),
                            None => Err(ErrModel::Transform("block mode error".spec_bytes())),
                        }
                    },
                }
            }
        }
    }
}

/// Decrypting a ciphertext under the stage's own key and IV gives the
/// plaintext back; the inverse the stage's encrypt direction promises.
pub open spec fn sp_cipher_inverse(
    aes: bool,
    cbc: bool,
    opts: Map<Seq<u8>, Option<Seq<u8>>>,
    ct: Seq<u8>,
    pt: Seq<u8>,
) -> bool {
    let key = opts[seq![N_UPPER_K]]->0;
    let iv: Seq<u8> = if cbc {
        opts[seq![N_UPPER_I, N_UPPER_V]]->0
    } else {
        Seq::empty()
    };
    if aes {
        aes_decrypt_of(cbc, key, iv, ct) == Some(pt)
    } else {
        sm4_decrypt_of(cbc, key, iv, ct) == Some(pt)
    }
}

impl Codec for AesCodec {
    open spec fn spec_run(
        &self,
        input: Seq<u8>,
        mode: CodecMode,
        opts: Map<Seq<u8>, Option<Seq<u8>>>,
        reg: Seq<(Seq<u8>, Option<Seq<char>>)>,
        store: Map<Seq<u8>, Seq<u8>>,
    ) -> Result<(Seq<u8>, Map<Seq<u8>, Seq<u8>>), ErrModel> {
        sp_cipher_run(
            self.cipher_type is Aes,
            self.mode is Cbc,
            input,
            mode,
            opts,
            store,
        )
    }

    fn run_codec(
        &self,
        input: &Vec<u8>,
        mode: CodecMode,
        options: &Options,
        info: &CodecMetaInfo,
        store: &mut FileStore,
    ) -> (r: Result<Vec<u8>, CodecError>)
        ensures
            mode is Encoding ==> (r matches Ok(v) ==> v@.len() == (input@.len() / 16 + 1) * 16),
            mode is Encoding ==> (r matches Ok(v) ==> sp_cipher_inverse(
                self.cipher_type is Aes,
                self.mode is Cbc,
                options@,
                v@,
                input@,
            )),
    {
        let aes = match self.cipher_type {
            BlockCipherType::Aes => true,
            BlockCipherType::Sm4 => false,
        };
        let cbc = match self.mode {
            BlockCipherMode::Cbc => true,
            BlockCipherMode::Ecb => false,
        };
        let k_name = byte_name(N_UPPER_K);
        let key = match options.get_text_raw(k_name.as_slice()) {
            Some(v) => v,
            None => {
                return Err(
                    CodecError::Transform(
                        if aes {
                            copy_bytes("aes: missing required option key (-K)".as_bytes())
                        } else {
                            copy_bytes("sm4: missing required option key (-K)".as_bytes())
                        },
                    ),
                );
            },
        };
        let iv_name = byte_name2(N_UPPER_I, N_UPPER_V);
        let iv: Vec<u8> = if cbc {
            match options.get_text_raw(iv_name.as_slice()) {
                Some(v) => v,
                None => {
                    return Err(
                        CodecError::Transform(
                            if aes {
                                copy_bytes("aes[cbc]: missing required option iv (-IV)".as_bytes())
                            } else {
                                copy_bytes("sm4[cbc]: missing required option iv (-IV)".as_bytes())
                            },
                        ),
                    );
                },
            }
        } else {
            Vec::new()
        };
        proof {
            if !cbc {
                assert(iv@ =~= Seq::<u8>::empty());
            }
        }
        let keylen_ok = if aes {
            key.len() == 16 || key.len() == 24 || key.len() == 32
        } else {
            key.len() == 16
        };
        if !keylen_ok {
            return Err(CodecError::Transform(mk_bad_key_len(key.len())));
        }
        if cbc && iv.len() != 16 {
            return Err(CodecError::Transform(copy_bytes("invalid iv length".as_bytes())));
        }
        match mode {
            CodecMode::Encoding => {
                let out = if aes {
                    if cbc {
                        if key.len() == 16 {
                            aes128_cbc_encrypt(key.as_slice(), iv.as_slice(), input.as_slice())
                        } else if key.len() == 24 {
                            aes192_cbc_encrypt(key.as_slice(), iv.as_slice(), input.as_slice())
                        } else {
                            aes256_cbc_encrypt(key.as_slice(), iv.as_slice(), input.as_slice())
                        }
                    } else {
                        if key.len() == 16 {
                            aes128_ecb_encrypt(key.as_slice(), input.as_slice())
                        } else if key.len() == 24 {
                            aes192_ecb_encrypt(key.as_slice(), input.as_slice())
                        } else {
                            aes256_ecb_encrypt(key.as_slice(), input.as_slice())
                        }
                    }
                } else {
                    if cbc {
                        sm4_cbc_encrypt(key.as_slice(), iv.as_slice(), input.as_slice())
                    } else {
                        sm4_ecb_encrypt(key.as_slice(), input.as_slice())
                    }
                };
                Ok(out)
            },
            CodecMode::Decoding => {
                let d = if aes {
                    if cbc {
                        if key.len() == 16 {
                            aes128_cbc_decrypt(key.as_slice(), iv.as_slice(), input.as_slice())
                        } else if key.len() == 24 {
                            aes192_cbc_decrypt(key.as_slice(), iv.as_slice(), input.as_slice())
                        } else {
                            aes256_cbc_decrypt(key.as_slice(), iv.as_slice(), input.as_slice())
                        }
                    } else {
                        if key.len() == 16 {
                            aes128_ecb_decrypt(key.as_slice(), input.as_slice())
                        } else if key.len() == 24 {
                            aes192_ecb_decrypt(key.as_slice(), input.as_slice())
                        } else {
                            aes256_ecb_decrypt(key.as_slice(), input.as_slice())
                        }
                    }
                } else {
                    if cbc {
                        sm4_cbc_decrypt(key.as_slice(), iv.as_slice(), input.as_slice())
                    } else {
                        sm4_ecb_decrypt(key.as_slice(), input.as_slice())
                    }
                };
                match d {
                    Some(v) => Ok(v),
                    None => Err(
                        CodecError::Transform(copy_bytes("block mode error".as_bytes())),
                    ),
                }
            },
        }
    }
}

impl CodecUsage for AesCodec {
    open spec fn spec_usage(&self) -> Seq<char> {
        match self.mode {
            BlockCipherMode::Cbc => "    -K key\n    -IV iv\n"@,
            BlockCipherMode::Ecb => "    -K key\n"@,
        }
    }

    fn usage(&self) -> (r: String) {
        match self.mode {
            BlockCipherMode::Cbc => String::from_str("    -K key\n    -IV iv\n"),
            BlockCipherMode::Ecb => String::from_str("    -K key\n"),
        }
    }
}

/// The SM4 stage: the same engine with the SM4 cipher family.
pub struct Sm4Codec(pub AesCodec);

impl Sm4Codec {
    pub fn new_cbc() -> (r: Sm4Codec)
        ensures
            r.0.mode is Cbc && r.0.cipher_type is Sm4,
    {
        Sm4Codec(AesCodec { mode: BlockCipherMode::Cbc, cipher_type: BlockCipherType::Sm4 })
    }

    pub fn new_ecb() -> (r: Sm4Codec)
        ensures
            r.0.mode is Ecb && r.0.cipher_type is Sm4,
    {
        Sm4Codec(AesCodec { mode: BlockCipherMode::Ecb, cipher_type: BlockCipherType::Sm4 })
    }
}

impl Codec for Sm4Codec {
    open spec fn spec_run(
        &self,
        input: Seq<u8>,
        mode: CodecMode,
        opts: Map<Seq<u8>, Option<Seq<u8>>>,
        reg: Seq<(Seq<u8>, Option<Seq<char>>)>,
        store: Map<Seq<u8>, Seq<u8>>,
    ) -> Result<(Seq<u8>, Map<Seq<u8>, Seq<u8>>), ErrModel> {
        self.0.spec_run(input, mode, opts, reg, store)
    }

    fn run_codec(
        &self,
        input: &Vec<u8>,
        mode: CodecMode,
        options: &Options,
        info: &CodecMetaInfo,
        store: &mut FileStore,
    ) -> (r: Result<Vec<u8>, CodecError>)
        ensures
            mode is Encoding ==> (r matches Ok(v) ==> v@.len() == (input@.len() / 16 + 1) * 16),
            mode is Encoding ==> (r matches Ok(v) ==> sp_cipher_inverse(
                self.0.cipher_type is Aes,
                self.0.mode is Cbc,
                options@,
                v@,
                input@,
            )),
    {
        self.0.run_codec(input, mode, options, info, store)
    }
}

impl CodecUsage for Sm4Codec {
    open spec fn spec_usage(&self) -> Seq<char> {
        self.0.spec_usage()
    }

    fn usage(&self) -> (r: String) {
        self.0.usage()
    }
}

} // verus!
