//! Streaming checks on an installer download: a size limit and the SHA-256
//! digest of exactly the bytes received.

use vstd::prelude::*;
use sha2::Sha256;
use sha2::Digest;
use crate::installer::{ReleaseAsset, MAX_DOWNLOAD_BYTES};
use crate::text::{concat2, concat3, decimal, decimal_string};

verus! {

/// A running SHA-256 computation (`sha2::Sha256`). Verus refused to declare
/// `Sha256` itself (an alias of a type built from `typenum` parameters), so the
/// hasher is held in this opaque struct and known only through `hashed_bytes`.
#[verifier::external_body]
pub struct Sha256Stream {
    inner: Sha256,
}

/// The bytes a hasher has been fed since it was created.
pub uninterp spec fn hashed_bytes(h: Sha256Stream) -> Seq<u8>;

/// The lowercase hexadecimal SHA-256 digest of `data`, as
/// `format!("{:x}", Sha256::digest(data))` writes it.
pub uninterp spec fn sha256_hex(data: Seq<u8>) -> Seq<char>;

/// `Sha256::new()`: a hasher that has been fed nothing.
#[verifier::external_body]
fn new_hasher() -> (h: Sha256Stream)
    ensures
        hashed_bytes(h) == Seq::<u8>::empty(),
{
    Sha256Stream { inner: Sha256::new() }
}

/// `Digest::update`: feeds `chunk` to the hasher after what it was fed before.
#[verifier::external_body]
fn feed_hasher(h: &mut Sha256Stream, chunk: &[u8])
    ensures
        hashed_bytes(*final(h)) == hashed_bytes(*old(h)) + chunk@,
{
    h.inner.update(chunk);
}

/// `Digest::finalize`, written as lowercase hexadecimal: the digest of the
/// bytes the hasher was fed.
#[verifier::external_body]
fn finish_hasher(h: Sha256Stream) -> (r: String)
    ensures
        r@ == sha256_hex(hashed_bytes(h)),
{
    format!("{:x}", h.inner.finalize())
}

/// The running state of a download: how many bytes have arrived and a hasher
/// that has seen exactly those bytes.
pub struct DownloadCheck {
    downloaded: u64,
    hasher: Sha256Stream,
    received: Ghost<Seq<u8>>,
}

impl DownloadCheck {
    /// The bytes received so far.
    pub closed spec fn received(&self) -> Seq<u8> {
        self.received@
    }

    /// The state's invariant: the byte count and the hasher both describe
    /// exactly the bytes received, which stay within the size limit.
    pub closed spec fn wf(&self) -> bool {
        &&& self.downloaded as nat == self.received@.len()
        &&& hashed_bytes(self.hasher) == self.received@
        &&& self.downloaded <= MAX_DOWNLOAD_BYTES
    }

    /// A check before any byte has arrived.
    pub fn new() -> (r: DownloadCheck)
        ensures
            r.wf(),
            r.received() == Seq::<u8>::empty(),
    {
        DownloadCheck { downloaded: 0, hasher: new_hasher(), received: Ghost(Seq::empty()) }
    }

    /// The number of bytes received so far.
    pub fn downloaded(&self) -> (r: u64)
        requires
            self.wf(),
        ensures
            r as nat == self.received().len(),
    {
        self.downloaded
    }

    /// Takes the next chunk of the body. Fails, keeping the state, when the
    /// total would exceed the 3 GiB limit.
    pub fn accept_chunk(&mut self, chunk: &[u8]) -> (r: Result<(), String>)
        requires
            old(self).wf(),
        ensures
            final(self).wf(),
            (old(self).received().len() + chunk@.len() <= MAX_DOWNLOAD_BYTES) <==> r is Ok,
            r is Ok ==> final(self).received() == old(self).received() + chunk@,
            r is Err ==> final(self).received() == old(self).received(),
            r matches Err(e) ==> e@ == "The Ollama download exceeded the size limit."@,
    {
        let len = chunk.len();
        if len as u64 > MAX_DOWNLOAD_BYTES - self.downloaded {
            return Err(String::from_str("The Ollama download exceeded the size limit."));
        }
        self.downloaded = self.downloaded + len as u64;
        feed_hasher(&mut self.hasher, chunk);
        self.received = Ghost(self.received@ + chunk@);
        Ok(())
    }

    /// Finishes the download of `asset`: the byte count must equal the
    /// published size, and when a digest is published the received bytes must
    /// hash to it. `Ok(true)` means the digest was checked and matched;
    /// `Ok(false)` that none was published.
    pub fn finish(self, asset: &ReleaseAsset) -> (r: Result<bool, String>)
        requires
            self.wf(),
        ensures
            r is Ok <==> (self.received().len() == asset.size && match asset.digest {
                None => true,
                Some(d) => d@ == "sha256:"@ + sha256_hex(self.received()),
            }),
            r matches Ok(checked) ==> checked == (asset.digest is Some),
            self.received().len() != asset.size ==> (r matches Err(e) && e@
                == "The Ollama download was incomplete (received "@ + decimal(
                self.received().len()) + " of "@ + decimal(asset.size as nat) + " bytes)."@),
            self.received().len() == asset.size && r is Err ==> (r matches Err(e) && e@
                == "The Ollama download failed its published SHA-256 check."@),
    {
        if self.downloaded != asset.size {
            let got = decimal_string(self.downloaded as u128);
            let want = decimal_string(asset.size as u128);
            let head = concat3("The Ollama download was incomplete (received ", got.as_str(), " of ");
            return Err(concat3(head.as_str(), want.as_str(), " bytes)."));
        }
        match &asset.digest {
            Some(expected) => {
                let actual = finish_hasher(self.hasher);
                let published = concat2("sha256:", actual.as_str());
                if expected.clone() == published {
                    Ok(true)
                } else {
                    Err(String::from_str("The Ollama download failed its published SHA-256 check."))
                }
            },
            None => Ok(false),
        }
    }
}

} // verus!
