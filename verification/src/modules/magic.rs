//! The `magic` module: the type of the scanned data, as libmagic sees it.
//!
//! libmagic is asked once for each scan and kind of answer; the answer is
//! kept until the next scan starts.

use crate::scanner::ScanContext;
use crate::wasm::string::RuntimeString;
use vstd::prelude::*;
use vstd::utf8::encode_utf8;

verus! {

/// `magic::Cookie::open` with no flags, `Cookie::load` of the default
/// database, and `Cookie::buffer`: the description that libmagic gives of
/// the data, or `None` where libmagic fails. What it says depends on the
/// database that is installed: nothing is promised of it.
#[verifier::external_body]
fn get_type(data: &[u8]) -> (description: Option<String>) {
    let cookie = magic::Cookie::open(Default::default()).ok()?;
    let cookie = cookie.load(&Default::default()).ok()?;
    cookie.buffer(data).ok()
}

/// `magic::Cookie::open` with the flag `MIME_TYPE`, `Cookie::load` of the
/// default database, and `Cookie::buffer`: the MIME type that libmagic gives
/// the data, or `None` where libmagic fails. What it says depends on the
/// database that is installed: nothing is promised of it.
#[verifier::external_body]
fn get_mime_type(data: &[u8]) -> (mime_type: Option<String>) {
    let cookie = magic::Cookie::open(magic::cookie::Flags::MIME_TYPE).ok()?;
    let cookie = cookie.load(&Default::default()).ok()?;
    cookie.buffer(data).ok()
}

/// What libmagic said of the data of the scan under way.
pub struct Magic {
    pub type_cache: Option<String>,
    pub mime_type_cache: Option<String>,
}

/// What `answer` promises: with `known` the result is that string and
/// nothing was asked; without it, the result is what was detected, which is
/// then known. A result is a string of the scan with the bytes of the
/// answer.
pub open spec fn answered(
    before: ScanContext,
    after: ScanContext,
    known: Option<String>,
    detected: Option<String>,
    now_known: Option<String>,
    r: Option<RuntimeString>,
) -> bool {
    let said = match known {
        Some(s) => Some(s),
        None => detected,
    };
    &&& after.wf()
    &&& after.scanned_data == before.scanned_data
    &&& after.heap == before.heap
    &&& after.root_struct == before.root_struct
    &&& after.current_struct == before.current_struct
    &&& after.vars_stack == before.vars_stack
    &&& after.rules_matching == before.rules_matching
    &&& match said {
        Some(s) => {
            &&& now_known is Some
            &&& now_known->0@ == s@
            &&& r matches Some(RuntimeString::Owned(id))
            &&& id.0 < after.string_pool@.len()
            &&& after.string_pool@[id.0 as int] == encode_utf8(s@)
            &&& after.string_pool@ == crate::wasm::host::interned(
                before.string_pool@,
                encode_utf8(s@),
            )
        },
        None => now_known is None && r is None && after.string_pool@ == before.string_pool@,
    }
}

/// Gives the answer that is known, or else the one that was detected, and
/// remembers it.
pub fn answer(ctx: &mut ScanContext, known: &mut Option<String>, detected: Option<String>) -> (r:
    Option<RuntimeString>)
    requires
        old(ctx).wf(),
        old(ctx).string_pool@.len() < u32::MAX,
    ensures
        answered(*old(ctx), *final(ctx), *old(known), detected, *final(known), r),
{
    let said = match known.take() {
        Some(s) => s,
        None => match detected {
            Some(s) => s,
            None => {
                return None;
            },
        },
    };
    let id = ctx.string_pool.get_or_intern(said.as_str().as_bytes());
    *known = Some(said);
    Some(RuntimeString::Owned(id))
}

impl Magic {
    /// Nothing is known of any data yet.
    pub fn new() -> (magic: Magic)
        ensures
            magic.type_cache is None,
            magic.mime_type_cache is None,
    {
        Magic { type_cache: None, mime_type_cache: None }
    }

    /// Starts a scan: what was known of the data of the scan before is
    /// forgotten.
    pub fn main(&mut self)
        ensures
            final(self).type_cache is None,
            final(self).mime_type_cache is None,
    {
        self.type_cache = None;
        self.mime_type_cache = None;
    }

    /// The description of the scanned data. libmagic is asked only where
    /// the description is not known from an earlier call in this scan.
    pub fn file_type(&mut self, ctx: &mut ScanContext) -> (r: Option<RuntimeString>)
        requires
            old(ctx).wf(),
            old(ctx).string_pool@.len() < u32::MAX,
        ensures
            final(self).mime_type_cache == old(self).mime_type_cache,
            exists|detected: Option<String>|
                answered(
                    *old(ctx),
                    *final(ctx),
                    old(self).type_cache,
                    detected,
                    final(self).type_cache,
                    r,
                ),
    {
        let detected = if self.type_cache.is_some() {
            None
        } else {
            get_type(ctx.scanned_data())
        };
        answer(ctx, &mut self.type_cache, detected)
    }

    /// The MIME type of the scanned data. libmagic is asked only where the
    /// type is not known from an earlier call in this scan.
    pub fn mime_type(&mut self, ctx: &mut ScanContext) -> (r: Option<RuntimeString>)
        requires
            old(ctx).wf(),
            old(ctx).string_pool@.len() < u32::MAX,
        ensures
            final(self).type_cache == old(self).type_cache,
            exists|detected: Option<String>|
                answered(
                    *old(ctx),
                    *final(ctx),
                    old(self).mime_type_cache,
                    detected,
                    final(self).mime_type_cache,
                    r,
                ),
    {
        let detected = if self.mime_type_cache.is_some() {
            None
        } else {
            get_mime_type(ctx.scanned_data())
        };
        answer(ctx, &mut self.mime_type_cache, detected)
    }
}

} // verus!
