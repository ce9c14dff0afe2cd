//! The render coordinator's decisions: serve a cached artifact when a fresh
//! one exists, otherwise ask for exactly one render and record its result.
//! The render itself (template to markup, markup to image) happens outside;
//! this module decides, and proves that a recorded render followed by the
//! scheduled cleanup leaves the next request a pure cache hit.

use vstd::prelude::*;
use vstd::string::*;
use crate::cache::{
    spec_cache_file_name, spec_cache_path, spec_cleanup, spec_has_valid, spec_keeps, spec_store,
    DirEntryView, DirModel,
};

verus! {

/// The coordinator's first step for one request: the canonical artifact path
/// for `fp`, and whether a render is needed. The result is `true` exactly on
/// a cache miss; on a hit the path can be served with no external call.
pub fn ensure_rendered(dir: &DirModel, data_dir: &str, fp: u64) -> (r: (String, bool))
    ensures
        r.0@ == spec_cache_path(data_dir@, fp),
        r.1 == !spec_has_valid(dir@, fp),
{
    let path = crate::cache::get_cache_path(data_dir, fp);
    let hit = dir.has_valid(fp);
    (path, !hit)
}

/// Storing a rendered artifact makes it the fresh artifact for its
/// fingerprint.
pub proof fn lemma_store_then_hit(s: Seq<DirEntryView>, fp: u64, size: u64)
    requires
        size > 0,
    ensures
        spec_has_valid(spec_store(s, fp, size), fp),
{
    let t = spec_store(s, fp, size);
    assert(t[t.len() - 1].name == spec_cache_file_name(fp) && t[t.len() - 1].size > 0);
}

/// Cleanup never removes the artifact it was asked to keep: a fresh artifact
/// for `fp` survives `cleanup(_, fp)`.
pub proof fn lemma_cleanup_keeps_current(s: Seq<DirEntryView>, fp: u64)
    requires
        spec_has_valid(s, fp),
    ensures
        spec_has_valid(spec_cleanup(s, fp), fp),
{
    crate::cache::lemma_cleanup_safety(s, fp);
    let i = choose|i: int|
        0 <= i < s.len() && (#[trigger] s[i]).name == spec_cache_file_name(fp) && s[i].size > 0;
    assert(spec_keeps(s[i], fp));
    assert(spec_cleanup(s, fp).contains(s[i]));
    let k = choose|k: int|
        0 <= k < spec_cleanup(s, fp).len() && spec_cleanup(s, fp)[k] == s[i];
    assert(spec_cleanup(s, fp)[k].name == spec_cache_file_name(fp) && spec_cleanup(s, fp)[k].size
        > 0);
}

/// Cache idempotence: after a miss renders an artifact with some content and
/// the scheduled cleanup runs, the artifact for that fingerprint is fresh,
/// so a second request with an unchanged configuration is a pure cache hit
/// and performs no further render.
pub proof fn lemma_second_request_is_hit(s: Seq<DirEntryView>, fp: u64, size: u64)
    requires
        size > 0,
    ensures
        spec_has_valid(spec_cleanup(spec_store(s, fp, size), fp), fp),
{
    lemma_store_then_hit(s, fp, size);
    lemma_cleanup_keeps_current(spec_store(s, fp, size), fp);
}

/// The acknowledgment sent when a render starts.
pub fn generating_notice() -> (r: String)
    ensures
        r@ == "🎨 正在生成帮助菜单..."@,
{
    String::from_str("🎨 正在生成帮助菜单...")
}

/// The reply when building the markup failed; the request aborts, nothing is
/// cached.
pub fn markup_failed_notice() -> (r: String)
    ensures
        r@ == "❌ 菜单生成失败，请稍后重试"@,
{
    String::from_str("❌ 菜单生成失败，请稍后重试")
}

/// The reply when the rendering engine failed; the request aborts, nothing
/// is cached.
pub fn render_failed_notice() -> (r: String)
    ensures
        r@ == "❌ 图片渲染失败"@,
{
    String::from_str("❌ 图片渲染失败")
}

} // verus!
