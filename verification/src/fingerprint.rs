//! The configuration fingerprint: a 64-bit digest folded, FNV-1a style, over
//! every rendering-affecting field (title, subtitle, theme, categories and
//! their plugins). Trigger words, the footer and the backing-file path do not
//! take part, so changing them never invalidates a cached artifact.
//!
//! Strings and lists are folded behind their lengths, so that neighbouring
//! fields cannot slide into one another.

use vstd::prelude::*;
use crate::config::{CategoryView, Config, ConfigView, PluginItemView, ThemeView};

verus! {

pub const FNV_OFFSET_BASIS: u64 = 0xcbf29ce484222325;

pub const FNV_PRIME: u64 = 0x100000001b3;

/// One FNV-1a round: fold `v` into the running digest `h`.
pub open spec fn fnv_step(h: u64, v: u64) -> u64 {
    vstd::wrapping::u64_specs::wrapping_mul(h ^ v, FNV_PRIME)
}

fn mix(h: u64, v: u64) -> (r: u64)
    ensures
        r == fnv_step(h, v),
{
    (h ^ v).wrapping_mul(FNV_PRIME)
}

pub open spec fn fnv_chars(h: u64, s: Seq<char>) -> u64
    decreases s.len(),
{
    if s.len() == 0 {
        h
    } else {
        fnv_chars(fnv_step(h, (s[0] as u32) as u64), s.drop_first())
    }
}

proof fn lemma_fnv_chars_push(h: u64, s: Seq<char>, c: char)
    ensures
        fnv_chars(h, s.push(c)) == fnv_step(fnv_chars(h, s), (c as u32) as u64),
    decreases s.len(),
{
    if s.len() == 0 {
        assert(s.push(c).drop_first() =~= s);
        assert(fnv_chars(h, s) == h);
        assert(fnv_chars(fnv_step(h, (c as u32) as u64), s) == fnv_step(h, (c as u32) as u64));
    } else {
        assert(s.push(c).drop_first() =~= s.drop_first().push(c));
        lemma_fnv_chars_push(fnv_step(h, (s[0] as u32) as u64), s.drop_first(), c);
        assert(fnv_chars(h, s.push(c)) == fnv_chars(
            fnv_step(h, (s[0] as u32) as u64),
            s.drop_first().push(c),
        ));
        assert(fnv_chars(h, s) == fnv_chars(fnv_step(h, (s[0] as u32) as u64), s.drop_first()));
    }
}

/// A string is folded behind its length.
pub open spec fn fnv_string(h: u64, s: Seq<char>) -> u64 {
    fnv_chars(fnv_step(h, s.len() as u64), s)
}

/// An optional string is folded behind a presence tag.
pub open spec fn fnv_opt_string(h: u64, o: Option<Seq<char>>) -> u64 {
    match o {
        Option::None => fnv_step(h, 0),
        Option::Some(s) => fnv_string(fnv_step(h, 1), s),
    }
}

pub open spec fn fnv_strings(h: u64, ss: Seq<Seq<char>>) -> u64
    decreases ss.len(),
{
    if ss.len() == 0 {
        h
    } else {
        fnv_strings(fnv_string(h, ss[0]), ss.drop_first())
    }
}

proof fn lemma_fnv_strings_push(h: u64, ss: Seq<Seq<char>>, s: Seq<char>)
    ensures
        fnv_strings(h, ss.push(s)) == fnv_string(fnv_strings(h, ss), s),
    decreases ss.len(),
{
    if ss.len() == 0 {
        assert(ss.push(s).drop_first() =~= ss);
        assert(fnv_strings(h, ss) == h);
        assert(fnv_strings(fnv_string(h, s), ss) == fnv_string(h, s));
    } else {
        assert(ss.push(s).drop_first() =~= ss.drop_first().push(s));
        lemma_fnv_strings_push(fnv_string(h, ss[0]), ss.drop_first(), s);
        assert(fnv_strings(h, ss.push(s)) == fnv_strings(
            fnv_string(h, ss[0]),
            ss.drop_first().push(s),
        ));
        assert(fnv_strings(h, ss) == fnv_strings(fnv_string(h, ss[0]), ss.drop_first()));
    }
}

pub open spec fn fnv_string_list(h: u64, ss: Seq<Seq<char>>) -> u64 {
    fnv_strings(fnv_step(h, ss.len() as u64), ss)
}

pub open spec fn fnv_theme(h: u64, t: ThemeView) -> u64 {
    fnv_step(
        fnv_string(fnv_string(fnv_string(h, t.primary), t.bg_start), t.bg_end),
        t.card_opacity as u64,
    )
}

pub open spec fn fnv_plugin(h: u64, p: PluginItemView) -> u64 {
    fnv_opt_string(fnv_string_list(fnv_string(fnv_string(h, p.name), p.desc), p.commands), p.icon)
}

pub open spec fn fnv_plugins(h: u64, ps: Seq<PluginItemView>) -> u64
    decreases ps.len(),
{
    if ps.len() == 0 {
        h
    } else {
        fnv_plugins(fnv_plugin(h, ps[0]), ps.drop_first())
    }
}

proof fn lemma_fnv_plugins_push(h: u64, ps: Seq<PluginItemView>, p: PluginItemView)
    ensures
        fnv_plugins(h, ps.push(p)) == fnv_plugin(fnv_plugins(h, ps), p),
    decreases ps.len(),
{
    if ps.len() == 0 {
        assert(ps.push(p).drop_first() =~= ps);
        assert(fnv_plugins(h, ps) == h);
        assert(fnv_plugins(fnv_plugin(h, p), ps) == fnv_plugin(h, p));
    } else {
        assert(ps.push(p).drop_first() =~= ps.drop_first().push(p));
        lemma_fnv_plugins_push(fnv_plugin(h, ps[0]), ps.drop_first(), p);
        assert(fnv_plugins(h, ps.push(p)) == fnv_plugins(
            fnv_plugin(h, ps[0]),
            ps.drop_first().push(p),
        ));
        assert(fnv_plugins(h, ps) == fnv_plugins(fnv_plugin(h, ps[0]), ps.drop_first()));
    }
}

pub open spec fn fnv_plugin_list(h: u64, ps: Seq<PluginItemView>) -> u64 {
    fnv_plugins(fnv_step(h, ps.len() as u64), ps)
}

pub open spec fn fnv_category(h: u64, c: CategoryView) -> u64 {
    fnv_plugin_list(fnv_opt_string(fnv_string(fnv_string(h, c.name), c.icon), c.color), c.plugins)
}

pub open spec fn fnv_categories(h: u64, cs: Seq<CategoryView>) -> u64
    decreases cs.len(),
{
    if cs.len() == 0 {
        h
    } else {
        fnv_categories(fnv_category(h, cs[0]), cs.drop_first())
    }
}

proof fn lemma_fnv_categories_push(h: u64, cs: Seq<CategoryView>, c: CategoryView)
    ensures
        fnv_categories(h, cs.push(c)) == fnv_category(fnv_categories(h, cs), c),
    decreases cs.len(),
{
    if cs.len() == 0 {
        assert(cs.push(c).drop_first() =~= cs);
        assert(fnv_categories(h, cs) == h);
        assert(fnv_categories(fnv_category(h, c), cs) == fnv_category(h, c));
    } else {
        assert(cs.push(c).drop_first() =~= cs.drop_first().push(c));
        lemma_fnv_categories_push(fnv_category(h, cs[0]), cs.drop_first(), c);
        assert(fnv_categories(h, cs.push(c)) == fnv_categories(
            fnv_category(h, cs[0]),
            cs.drop_first().push(c),
        ));
        assert(fnv_categories(h, cs) == fnv_categories(fnv_category(h, cs[0]), cs.drop_first()));
    }
}

pub open spec fn fnv_category_list(h: u64, cs: Seq<CategoryView>) -> u64 {
    fnv_categories(fnv_step(h, cs.len() as u64), cs)
}

/// The fingerprint of a configuration: title, subtitle, theme and the whole
/// category tree, and nothing else.
pub open spec fn spec_fingerprint(c: ConfigView) -> u64 {
    fnv_category_list(
        fnv_theme(fnv_opt_string(fnv_string(FNV_OFFSET_BASIS, c.title), c.subtitle), c.theme),
        c.category,
    )
}

/// The fingerprint reads only the rendering-affecting fields: two
/// configurations that agree on title, subtitle, theme and categories have
/// the same fingerprint, however their triggers, footer or backing path
/// differ.
pub proof fn lemma_fingerprint_only_rendering_fields(a: ConfigView, b: ConfigView)
    requires
        a.title == b.title,
        a.subtitle == b.subtitle,
        a.theme == b.theme,
        a.category == b.category,
    ensures
        spec_fingerprint(a) == spec_fingerprint(b),
{
}

/// Reload determinism: a reload that parsed content with the same rendering
/// fields as the current configuration leaves the fingerprint unchanged. In
/// particular, re-reading a byte-identical backing file cannot invalidate the
/// cache.
pub proof fn lemma_reload_same_content_keeps_fingerprint(
    before: ConfigView,
    fresh: ConfigView,
    after: ConfigView,
)
    requires
        crate::config::reloaded_from(after, fresh, before),
        fresh.title == before.title,
        fresh.subtitle == before.subtitle,
        fresh.theme == before.theme,
        fresh.category == before.category,
    ensures
        spec_fingerprint(after) == spec_fingerprint(before),
{
    lemma_fingerprint_only_rendering_fields(after, before);
}

fn mix_str(h: u64, s: &str) -> (r: u64)
    ensures
        r == fnv_string(h, s@),
{
    let n: usize = s.unicode_len();
    let mut acc = mix(h, n as u64);
    let mut i: usize = 0;
    while i < n
        invariant
            n == s@.len(),
            i <= n,
            acc == fnv_chars(fnv_step(h, s@.len() as u64), s@.take(i as int)),
        decreases n - i,
    {
        let c = s.get_char(i);
        acc = mix(acc, c as u64);
        proof {
            assert(s@.take(i as int + 1) =~= s@.take(i as int).push(s@[i as int]));
            lemma_fnv_chars_push(fnv_step(h, s@.len() as u64), s@.take(i as int), s@[i as int]);
        }
        i = i + 1;
    }
    proof {
        assert(s@.take(n as int) =~= s@);
    }
    acc
}

fn mix_opt_str(h: u64, o: &Option<String>) -> (r: u64)
    ensures
        r == fnv_opt_string(
            h,
            match *o {
                Option::Some(s) => Option::Some(s@),
                Option::None => Option::None,
            },
        ),
{
    match o {
        None => mix(h, 0),
        Some(s) => mix_str(mix(h, 1), s.as_str()),
    }
}

fn mix_string_list(h: u64, ss: &Vec<String>) -> (r: u64)
    ensures
        r == fnv_string_list(h, ss@.map_values(|s: String| s@)),
{
    let ghost ssv = ss@.map_values(|s: String| s@);
    let mut acc = mix(h, ss.len() as u64);
    let mut i: usize = 0;
    while i < ss.len()
        invariant
            ssv == ss@.map_values(|s: String| s@),
            ssv.len() == ss@.len(),
            i <= ss@.len(),
            acc == fnv_strings(fnv_step(h, ssv.len() as u64), ssv.take(i as int)),
        decreases ss@.len() - i,
    {
        acc = mix_str(acc, ss[i].as_str());
        proof {
            assert(ssv.take(i as int + 1) =~= ssv.take(i as int).push(ssv[i as int]));
            lemma_fnv_strings_push(fnv_step(h, ssv.len() as u64), ssv.take(i as int), ssv[i as int]);
        }
        i = i + 1;
    }
    proof {
        assert(ssv.take(ssv.len() as int) =~= ssv);
    }
    acc
}

fn mix_theme(h: u64, t: &crate::config::Theme) -> (r: u64)
    ensures
        r == fnv_theme(h, t@),
{
    let a = mix_str(h, t.primary.as_str());
    let b = mix_str(a, t.bg_start.as_str());
    let c = mix_str(b, t.bg_end.as_str());
    mix(c, t.card_opacity as u64)
}

fn mix_plugin(h: u64, p: &crate::config::PluginItem) -> (r: u64)
    ensures
        r == fnv_plugin(h, p@),
{
    let a = mix_str(h, p.name.as_str());
    let b = mix_str(a, p.desc.as_str());
    let c = mix_string_list(b, &p.commands);
    mix_opt_str(c, &p.icon)
}

fn mix_category(h: u64, c: &crate::config::Category) -> (r: u64)
    ensures
        r == fnv_category(h, c@),
{
    let ghost psv = c.plugins@.map_values(|p: crate::config::PluginItem| p@);
    let a = mix_str(h, c.name.as_str());
    let b = mix_str(a, c.icon.as_str());
    let d = mix_opt_str(b, &c.color);
    let mut acc = mix(d, c.plugins.len() as u64);
    let mut i: usize = 0;
    while i < c.plugins.len()
        invariant
            psv == c.plugins@.map_values(|p: crate::config::PluginItem| p@),
            psv.len() == c.plugins@.len(),
            i <= c.plugins@.len(),
            acc == fnv_plugins(fnv_step(d, psv.len() as u64), psv.take(i as int)),
        decreases c.plugins@.len() - i,
    {
        acc = mix_plugin(acc, &c.plugins[i]);
        proof {
            assert(psv.take(i as int + 1) =~= psv.take(i as int).push(psv[i as int]));
            lemma_fnv_plugins_push(fnv_step(d, psv.len() as u64), psv.take(i as int), psv[i as int]);
        }
        i = i + 1;
    }
    proof {
        assert(psv.take(psv.len() as int) =~= psv);
    }
    acc
}

impl Config {
    /// The fingerprint of this configuration's rendering-affecting content,
    /// used as the cache key for rendered artifacts.
    pub fn content_hash(&self) -> (r: u64)
        ensures
            r == spec_fingerprint(self@),
    {
        let ghost csv = self.category@.map_values(|c: crate::config::Category| c@);
        let a = mix_str(FNV_OFFSET_BASIS, self.title.as_str());
        let b = mix_opt_str(a, &self.subtitle);
        let d = mix_theme(b, &self.theme);
        let mut acc = mix(d, self.category.len() as u64);
        let mut i: usize = 0;
        while i < self.category.len()
            invariant
                csv == self.category@.map_values(|c: crate::config::Category| c@),
                csv.len() == self.category@.len(),
                i <= self.category@.len(),
                acc == fnv_categories(fnv_step(d, csv.len() as u64), csv.take(i as int)),
            decreases self.category@.len() - i,
        {
            acc = mix_category(acc, &self.category[i]);
            proof {
                assert(csv.take(i as int + 1) =~= csv.take(i as int).push(csv[i as int]));
                lemma_fnv_categories_push(
                    fnv_step(d, csv.len() as u64),
                    csv.take(i as int),
                    csv[i as int],
                );
            }
            i = i + 1;
        }
        proof {
            assert(csv.take(csv.len() as int) =~= csv);
        }
        acc
    }
}

} // verus!
