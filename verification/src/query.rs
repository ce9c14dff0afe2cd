//! Read-only queries over the configuration: the case-insensitive search and
//! the bounded, user-facing formatting of its results and of the category
//! listing.

use vstd::prelude::*;
use vstd::string::*;
use crate::config::{CategoryView, Config, PluginItemView, SearchResult, SearchResultView};
use crate::text::{contains_sub, dec_seq, dec_string, lower_of, lowercase, contains_str};

verus! {

/// The views of a list of search results.
pub open spec fn result_views(rs: Seq<SearchResult>) -> Seq<SearchResultView> {
    rs.map_values(|x: SearchResult| x@)
}

/// The first command of `cmds` whose lowercase form contains `kw`, if any.
/// `kw` is already lowercase.
pub open spec fn first_cmd_match(cmds: Seq<Seq<char>>, kw: Seq<char>) -> Option<Seq<char>>
    decreases cmds.len(),
{
    if cmds.len() == 0 {
        Option::None
    } else if contains_sub(lower_of(cmds[0]), kw) {
        Option::Some(cmds[0])
    } else {
        first_cmd_match(cmds.drop_first(), kw)
    }
}

/// What one plugin contributes to a search: one hit on its name, else one
/// hit on its first matching command, else nothing.
pub open spec fn plugin_search_hit(cat_name: Seq<char>, p: PluginItemView, kw: Seq<char>) -> Seq<
    SearchResultView,
> {
    if contains_sub(lower_of(p.name), kw) {
        seq![
            SearchResultView {
                category: cat_name,
                plugin: p.name,
                desc: p.desc,
                matched_cmd: Option::None,
            },
        ]
    } else {
        match first_cmd_match(p.commands, kw) {
            Option::Some(c) => seq![
                SearchResultView {
                    category: cat_name,
                    plugin: p.name,
                    desc: p.desc,
                    matched_cmd: Option::Some(c),
                },
            ],
            Option::None => Seq::empty(),
        }
    }
}

/// The hits of one category's plugins, in declaration order.
pub open spec fn plugins_results(cat_name: Seq<char>, ps: Seq<PluginItemView>, kw: Seq<char>) -> Seq<
    SearchResultView,
>
    decreases ps.len(),
{
    if ps.len() == 0 {
        Seq::empty()
    } else {
        plugin_search_hit(cat_name, ps[0], kw) + plugins_results(cat_name, ps.drop_first(), kw)
    }
}

/// All hits, category by category and plugin by plugin, in declaration
/// order.
pub open spec fn search_results(cats: Seq<CategoryView>, kw: Seq<char>) -> Seq<SearchResultView>
    decreases cats.len(),
{
    if cats.len() == 0 {
        Seq::empty()
    } else {
        plugins_results(cats[0].name, cats[0].plugins, kw) + search_results(cats.drop_first(), kw)
    }
}

proof fn lemma_plugins_results_push(
    cat_name: Seq<char>,
    ps: Seq<PluginItemView>,
    p: PluginItemView,
    kw: Seq<char>,
)
    ensures
        plugins_results(cat_name, ps.push(p), kw) == plugins_results(cat_name, ps, kw)
            + plugin_search_hit(cat_name, p, kw),
    decreases ps.len(),
{
    if ps.len() == 0 {
        assert(ps.push(p).drop_first() =~= ps);
        assert(plugins_results(cat_name, ps, kw) == Seq::<SearchResultView>::empty());
        assert(plugins_results(cat_name, ps.push(p), kw) =~= plugin_search_hit(cat_name, p, kw));
        assert(plugins_results(cat_name, ps, kw) + plugin_search_hit(cat_name, p, kw)
            =~= plugin_search_hit(cat_name, p, kw));
    } else {
        assert(ps.push(p).drop_first() =~= ps.drop_first().push(p));
        lemma_plugins_results_push(cat_name, ps.drop_first(), p, kw);
        assert(plugins_results(cat_name, ps.push(p), kw) == plugin_search_hit(cat_name, ps[0], kw)
            + plugins_results(cat_name, ps.drop_first().push(p), kw));
        assert(plugins_results(cat_name, ps, kw) == plugin_search_hit(cat_name, ps[0], kw)
            + plugins_results(cat_name, ps.drop_first(), kw));
        assert(plugin_search_hit(cat_name, ps[0], kw) + (plugins_results(
            cat_name,
            ps.drop_first(),
            kw,
        ) + plugin_search_hit(cat_name, p, kw)) =~= (plugin_search_hit(cat_name, ps[0], kw)
            + plugins_results(cat_name, ps.drop_first(), kw)) + plugin_search_hit(cat_name, p, kw));
    }
}

proof fn lemma_search_results_push(cats: Seq<CategoryView>, c: CategoryView, kw: Seq<char>)
    ensures
        search_results(cats.push(c), kw) == search_results(cats, kw) + plugins_results(
            c.name,
            c.plugins,
            kw,
        ),
    decreases cats.len(),
{
    if cats.len() == 0 {
        assert(cats.push(c).drop_first() =~= cats);
        assert(search_results(cats, kw) == Seq::<SearchResultView>::empty());
        assert(search_results(cats.push(c), kw) =~= plugins_results(c.name, c.plugins, kw));
        assert(search_results(cats, kw) + plugins_results(c.name, c.plugins, kw) =~= plugins_results(
            c.name,
            c.plugins,
            kw,
        ));
    } else {
        assert(cats.push(c).drop_first() =~= cats.drop_first().push(c));
        lemma_search_results_push(cats.drop_first(), c, kw);
        assert(search_results(cats.push(c), kw) == plugins_results(
            cats[0].name,
            cats[0].plugins,
            kw,
        ) + search_results(cats.drop_first().push(c), kw));
        assert(search_results(cats, kw) == plugins_results(cats[0].name, cats[0].plugins, kw)
            + search_results(cats.drop_first(), kw));
        assert(plugins_results(cats[0].name, cats[0].plugins, kw) + (search_results(
            cats.drop_first(),
            kw,
        ) + plugins_results(c.name, c.plugins, kw)) =~= (plugins_results(
            cats[0].name,
            cats[0].plugins,
            kw,
        ) + search_results(cats.drop_first(), kw)) + plugins_results(c.name, c.plugins, kw));
    }
}

proof fn lemma_first_cmd_match_at(cmds: Seq<Seq<char>>, kw: Seq<char>, k: int)
    requires
        0 <= k <= cmds.len(),
        forall|j: int| 0 <= j < k ==> !contains_sub(lower_of(#[trigger] cmds[j]), kw),
    ensures
        k < cmds.len() && contains_sub(lower_of(cmds[k]), kw) ==> first_cmd_match(cmds, kw)
            == Option::Some(cmds[k]),
        k == cmds.len() ==> first_cmd_match(cmds, kw) is None,
    decreases cmds.len(),
{
    if k == 0 {
    } else {
        assert(!contains_sub(lower_of(cmds[0]), kw));
        assert forall|j: int| 0 <= j < k - 1 implies !contains_sub(
            lower_of(#[trigger] cmds.drop_first()[j]),
            kw,
        ) by {
            assert(cmds.drop_first()[j] == cmds[j + 1]);
        }
        lemma_first_cmd_match_at(cmds.drop_first(), kw, k - 1);
        if k < cmds.len() {
            assert(cmds.drop_first()[k - 1] == cmds[k]);
        }
    }
}

impl Config {
    /// Case-insensitive search over the plugins, in category and plugin
    /// declaration order. A plugin whose name contains the keyword is
    /// reported without a matched command; otherwise its first matching
    /// command, if any, is reported alongside it.
    pub fn search(&self, keyword: &str) -> (r: Vec<SearchResult>)
        ensures
            result_views(r@) == search_results(self@.category, lower_of(keyword@)),
    {
        let kw = lowercase(keyword);
        let ghost cats = self@.category;
        let ghost kwv = lower_of(keyword@);
        let mut r: Vec<SearchResult> = Vec::new();
        let ghost mut rv = Seq::<SearchResultView>::empty();
        let mut i: usize = 0;
        while i < self.category.len()
            invariant
                cats == self@.category,
                kw@ == kwv,
                i <= cats.len(),
                cats.len() == self.category@.len(),
                rv == search_results(cats.take(i as int), kwv),
                r@.len() == rv.len(),
                forall|t: int| 0 <= t < r@.len() ==> (#[trigger] r@[t])@ == rv[t],
            decreases cats.len() - i,
        {
            let cat = &self.category[i];
            let ghost cv = cats[i as int];
            let ghost base = rv;
            let mut j: usize = 0;
            while j < cat.plugins.len()
                invariant
                    cat@ == cv,
                    kw@ == kwv,
                    j <= cv.plugins.len(),
                    cv.plugins.len() == cat.plugins@.len(),
                    rv == base + plugins_results(cv.name, cv.plugins.take(j as int), kwv),
                    r@.len() == rv.len(),
                    forall|t: int| 0 <= t < r@.len() ==> (#[trigger] r@[t])@ == rv[t],
                decreases cv.plugins.len() - j,
            {
                let plugin = &cat.plugins[j];
                let ghost pv = cv.plugins[j as int];
                let ghost hit = plugin_search_hit(cv.name, pv, kwv);
                let lname = lowercase(plugin.name.as_str());
                if contains_str(lname.as_str(), kw.as_str()) {
                    r.push(
                        SearchResult {
                            category: cat.name.clone(),
                            plugin: plugin.name.clone(),
                            desc: plugin.desc.clone(),
                            matched_cmd: None,
                        },
                    );
                    proof {
                        rv = rv.push(
                            SearchResultView {
                                category: cv.name,
                                plugin: pv.name,
                                desc: pv.desc,
                                matched_cmd: Option::None,
                            },
                        );
                        assert(hit =~= seq![
                            SearchResultView {
                                category: cv.name,
                                plugin: pv.name,
                                desc: pv.desc,
                                matched_cmd: Option::None,
                            },
                        ]);
                    }
                } else {
                    let mut matched: Option<String> = None;
                    let mut k: usize = 0;
                    while k < plugin.commands.len()
                        invariant
                            plugin@ == pv,
                            kw@ == kwv,
                            k <= pv.commands.len(),
                            pv.commands.len() == plugin.commands@.len(),
                            matched is None ==> forall|q: int|
                                0 <= q < k ==> !contains_sub(
                                    lower_of(#[trigger] pv.commands[q]),
                                    kwv,
                                ),
                            matched matches Some(c) ==> first_cmd_match(pv.commands, kwv)
                                == Option::Some(c@),
                        decreases pv.commands.len() - k,
                    {
                        if matched.is_none() {
                            let lc = lowercase(plugin.commands[k].as_str());
                            if contains_str(lc.as_str(), kw.as_str()) {
                                proof {
                                    lemma_first_cmd_match_at(pv.commands, kwv, k as int);
                                }
                                matched = Some(plugin.commands[k].clone());
                            }
                        }
                        k = k + 1;
                    }
                    proof {
                        if matched is None {
                            lemma_first_cmd_match_at(pv.commands, kwv, pv.commands.len() as int);
                        }
                    }
                    match matched {
                        Some(cmd) => {
                            let ghost cmdv = cmd@;
                            r.push(
                                SearchResult {
                                    category: cat.name.clone(),
                                    plugin: plugin.name.clone(),
                                    desc: plugin.desc.clone(),
                                    matched_cmd: Some(cmd),
                                },
                            );
                            proof {
                                rv = rv.push(
                                    SearchResultView {
                                        category: cv.name,
                                        plugin: pv.name,
                                        desc: pv.desc,
                                        matched_cmd: Option::Some(cmdv),
                                    },
                                );
                                assert(hit =~= seq![
                                    SearchResultView {
                                        category: cv.name,
                                        plugin: pv.name,
                                        desc: pv.desc,
                                        matched_cmd: Option::Some(cmdv),
                                    },
                                ]);
                            }
                        },
                        None => {
                            proof {
                                assert(hit =~= Seq::<SearchResultView>::empty());
                            }
                        },
                    }
                }
                proof {
                    assert(cv.plugins.take(j as int + 1) =~= cv.plugins.take(j as int).push(pv));
                    lemma_plugins_results_push(cv.name, cv.plugins.take(j as int), pv, kwv);
                    assert(rv =~= base + plugins_results(cv.name, cv.plugins.take(j as int + 1), kwv));
                }
                j = j + 1;
            }
            proof {
                assert(cv.plugins.take(cv.plugins.len() as int) =~= cv.plugins);
                assert(cats.take(i as int + 1) =~= cats.take(i as int).push(cv));
                lemma_search_results_push(cats.take(i as int), cv, kwv);
                assert(rv =~= search_results(cats.take(i as int + 1), kwv));
            }
            i = i + 1;
        }
        proof {
            assert(cats.take(cats.len() as int) =~= cats);
            assert(result_views(r@) =~= rv);
        }
        r
    }
}

/// Reload atomicity, seen from the queries: a failed reload leaves the
/// configuration value untouched (`reload`'s contract for the `Err` case),
/// so a fingerprint or search taken afterwards observes exactly the
/// pre-reload configuration.
pub proof fn lemma_failed_reload_is_invisible(before: Config, after: Config, kw: Seq<char>)
    requires
        after == before,
    ensures
        crate::fingerprint::spec_fingerprint(after@) == crate::fingerprint::spec_fingerprint(
            before@,
        ),
        search_results(after@.category, kw) == search_results(before@.category, kw),
{
}

/// How many results are shown in full: at most eight.
pub open spec fn shown_count(n: nat) -> nat {
    if n > 8 {
        8
    } else {
        n
    }
}

/// The display block of one result: its one-based number, category, plugin
/// and description, and the matched command when the hit was on a command.
pub open spec fn search_entry(i: int, r: SearchResultView) -> Seq<char> {
    dec_seq((i + 1) as nat) + ". 【"@ + r.category + "】"@ + r.plugin + "\n   📝 "@ + r.desc + (
    match r.matched_cmd {
        Option::Some(c) => "\n   🎯 匹配: "@ + c,
        Option::None => Seq::empty(),
    })
}

/// The display blocks of the first `upto` results, each preceded by a blank
/// line.
pub open spec fn search_entries(rs: Seq<SearchResultView>, upto: int) -> Seq<char>
    decreases upto,
{
    if upto <= 0 {
        Seq::empty()
    } else {
        search_entries(rs, upto - 1) + "\n\n"@ + search_entry(upto - 1, rs[upto - 1])
    }
}

/// The whole search reply: a "nothing found" message for an empty result
/// list, else a header with the hit count, up to eight result blocks, and a
/// trailing "more results" line when the list was truncated.
pub open spec fn format_search_view(kw: Seq<char>, rs: Seq<SearchResultView>) -> Seq<char> {
    if rs.len() == 0 {
        "🔍 未找到与「"@ + kw + "」相关的指令"@
    } else {
        let head = "🔍 搜索「"@ + kw + "」找到 "@ + dec_seq(rs.len()) + " 条结果："@;
        let body = head + search_entries(rs, shown_count(rs.len()) as int);
        if rs.len() > 8 {
            body + "\n\n...还有 "@ + dec_seq((rs.len() - 8) as nat) + " 条结果"@
        } else {
            body
        }
    }
}

/// Format search results for direct display: at most eight in full, a
/// summary line for the rest, and an explicit message when nothing was
/// found.
#[verifier::rlimit(50)]
pub fn format_search_results(keyword: &str, results: &Vec<SearchResult>) -> (r: String)
    ensures
        r@ == format_search_view(keyword@, result_views(results@)),
{
    let ghost rsv = result_views(results@);
    if results.len() == 0 {
        let mut m = String::from_str("🔍 未找到与「");
        m.append(keyword);
        m.append("」相关的指令");
        return m;
    }
    let mut m = String::from_str("🔍 搜索「");
    m.append(keyword);
    m.append("」找到 ");
    let n_str = dec_string(results.len());
    m.append(n_str.as_str());
    m.append(" 条结果：");
    let ghost head = m@;
    let shown: usize = if results.len() > 8 {
        8
    } else {
        results.len()
    };
    let mut i: usize = 0;
    while i < shown
        invariant
            rsv == result_views(results@),
            rsv.len() == results@.len(),
            shown == shown_count(rsv.len()),
            shown <= results@.len(),
            i <= shown,
            m@ == head + search_entries(rsv, i as int),
        decreases shown - i,
    {
        let sr = &results[i];
        let mut entry = dec_string(i + 1);
        entry.append(". 【");
        entry.append(sr.category.as_str());
        entry.append("】");
        entry.append(sr.plugin.as_str());
        entry.append("\n   📝 ");
        entry.append(sr.desc.as_str());
        match &sr.matched_cmd {
            Some(c) => {
                entry.append("\n   🎯 匹配: ");
                entry.append(c.as_str());
            },
            None => {},
        }
        proof {
            assert(entry@ =~= search_entry(i as int, rsv[i as int]));
        }
        m.append("\n\n");
        m.append(entry.as_str());
        proof {
            assert(m@ =~= head + search_entries(rsv, i as int + 1));
        }
        i = i + 1;
    }
    if results.len() > 8 {
        m.append("\n\n...还有 ");
        let more = dec_string(results.len() - 8);
        m.append(more.as_str());
        m.append(" 条结果");
        proof {
            assert(m@ =~= format_search_view(keyword@, rsv));
        }
    } else {
        proof {
            assert(m@ =~= format_search_view(keyword@, rsv));
        }
    }
    m
}

/// The views of a list of names.
pub open spec fn name_views(names: Seq<String>) -> Seq<Seq<char>> {
    names.map_values(|s: String| s@)
}

/// The numbered lines of the first `upto` category names.
pub open spec fn category_lines(names: Seq<Seq<char>>, upto: int) -> Seq<char>
    decreases upto,
{
    if upto <= 0 {
        Seq::empty()
    } else {
        category_lines(names, upto - 1) + "  "@ + dec_seq(upto as nat) + ". "@ + names[upto - 1]
            + "\n"@
    }
}

/// The whole category-listing reply: an explicit message when no category is
/// configured, else a header, one numbered line per category in declaration
/// order, and a usage hint.
pub open spec fn format_categories_view(names: Seq<Seq<char>>) -> Seq<char> {
    if names.len() == 0 {
        "📂 暂无分类配置"@
    } else {
        "📂 当前分类列表：\n\n"@ + category_lines(names, names.len() as int)
            + "\n💡 发送「帮助 分类名」可搜索该分类下的指令"@
    }
}

/// Format the category listing for direct display.
pub fn format_categories(names: &Vec<String>) -> (r: String)
    ensures
        r@ == format_categories_view(name_views(names@)),
{
    let ghost nv = name_views(names@);
    if names.len() == 0 {
        return String::from_str("📂 暂无分类配置");
    }
    let mut m = String::from_str("📂 当前分类列表：\n\n");
    let ghost head = m@;
    let mut i: usize = 0;
    while i < names.len()
        invariant
            nv == name_views(names@),
            nv.len() == names@.len(),
            i <= names@.len(),
            m@ == head + category_lines(nv, i as int),
        decreases names@.len() - i,
    {
        m.append("  ");
        let num = dec_string(i + 1);
        m.append(num.as_str());
        m.append(". ");
        m.append(names[i].as_str());
        m.append("\n");
        proof {
            assert(m@ =~= head + category_lines(nv, i as int + 1));
        }
        i = i + 1;
    }
    m.append("\n💡 发送「帮助 分类名」可搜索该分类下的指令");
    proof {
        assert(m@ =~= format_categories_view(nv));
    }
    m
}

/// Format the outcome of a reload for direct display: a fixed success
/// message, or the failure message carrying the reload error.
pub fn format_reload_reply(outcome: &Result<(), String>) -> (r: String)
    ensures
        outcome is Ok ==> r@ == "✅ 配置重载成功！下次查看帮助将使用新配置"@,
        outcome matches Err(e) ==> r@ == "❌ 配置重载失败: "@ + e@,
{
    match outcome {
        Ok(_) => String::from_str("✅ 配置重载成功！下次查看帮助将使用新配置"),
        Err(e) => {
            let mut m = String::from_str("❌ 配置重载失败: ");
            m.append(e.as_str());
            m
        },
    }
}

} // verus!
