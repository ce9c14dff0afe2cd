//! Tests for the configuration store, fingerprint, cache and queries.

use help_center::cache::{
    cache_file_name, get_cache_path, is_managed_name, is_valid, should_delete, DirModel,
};
use help_center::config::{
    default_bg_end, default_bg_start, default_footer, default_primary, default_title,
    default_triggers, Category, Config, PluginItem, Theme,
};
use help_center::coordinator::ensure_rendered;
use help_center::query::{format_categories, format_reload_reply, format_search_results};
use help_center::text::{contains_str, dec_string};

fn plugin(name: &str, desc: &str, commands: &[&str]) -> PluginItem {
    PluginItem {
        name: name.to_string(),
        desc: desc.to_string(),
        commands: commands.iter().map(|c| c.to_string()).collect(),
        icon: None,
    }
}

fn category(name: &str, plugins: Vec<PluginItem>) -> Category {
    Category {
        name: name.to_string(),
        icon: "📦".to_string(),
        color: None,
        plugins,
    }
}

fn sample_config() -> Config {
    let mut c = Config::default();
    c.category = vec![
        category(
            "工具",
            vec![
                plugin("天气", "查询天气", &["weather", "天气查询"]),
                plugin("翻译", "中英互译", &["translate"]),
            ],
        ),
        category(
            "开发",
            vec![
                plugin("仓库助手", "Git 仓库管理", &["git-status", "git-log"]),
                plugin("部署", "一键部署", &["deploy"]),
                plugin("日志", "查看日志", &["logs"]),
            ],
        ),
    ];
    c
}

#[test]
fn default_config_values() {
    let c = Config::default();
    assert_eq!(c.title, "📚 帮助中心");
    assert_eq!(c.subtitle, None);
    assert_eq!(c.footer, "Powered by Kovi Framework");
    assert_eq!(c.theme.primary, "#6366f1");
    assert_eq!(c.theme.bg_start, "#e0e7ff");
    assert_eq!(c.theme.bg_end, "#fdf4ff");
    assert_eq!(c.theme.card_opacity, 85);
    assert!(c.category.is_empty());
    assert_eq!(
        c.triggers,
        vec!["help", "帮助", "菜单", "menu", "指令", "功能"]
    );
    assert_eq!(c.config_path, "");
}

#[test]
fn default_helpers_agree_with_default_config() {
    let c = Config::default();
    assert_eq!(default_title(), c.title);
    assert_eq!(default_footer(), c.footer);
    assert_eq!(default_primary(), c.theme.primary);
    assert_eq!(default_bg_start(), c.theme.bg_start);
    assert_eq!(default_bg_end(), c.theme.bg_end);
    assert_eq!(default_triggers(), c.triggers);
    assert_eq!(Theme::default(), c.theme);
}

#[test]
fn load_prefers_parsed_user_file() {
    let mut user = Config::default();
    user.title = "我的帮助".to_string();
    let c = Config::load(Some(user), "/data/config.toml".to_string());
    assert_eq!(c.title, "我的帮助");
    assert_eq!(c.config_path, "/data/config.toml");
}

#[test]
fn load_falls_back_to_defaults() {
    let c = Config::load(None, "/data/config.toml".to_string());
    assert_eq!(c.title, "📚 帮助中心");
    assert_eq!(c.config_path, "/data/config.toml");
}

#[test]
fn fingerprint_deterministic() {
    let c = sample_config();
    assert_eq!(c.content_hash(), c.content_hash());
    assert_eq!(c.content_hash(), c.clone().content_hash());
}

#[test]
fn fingerprint_unchanged_by_identical_reload() {
    let mut c = sample_config();
    let before = c.content_hash();
    let same = c.clone();
    assert!(c.reload(Ok(same)).is_ok());
    assert_eq!(c.content_hash(), before);
}

#[test]
fn fingerprint_sensitive_to_rendering_fields() {
    let base = sample_config();
    let h = base.content_hash();

    let mut c = base.clone();
    c.title = "另一个标题".to_string();
    assert_ne!(c.content_hash(), h);

    let mut c = base.clone();
    c.subtitle = Some("sub".to_string());
    assert_ne!(c.content_hash(), h);

    let mut c = base.clone();
    c.theme.primary = "#000000".to_string();
    assert_ne!(c.content_hash(), h);

    let mut c = base.clone();
    c.theme.card_opacity = 40;
    assert_ne!(c.content_hash(), h);

    let mut c = base.clone();
    c.category[0].name = "杂项".to_string();
    assert_ne!(c.content_hash(), h);

    let mut c = base.clone();
    c.category[1].plugins[0].desc = "别的描述".to_string();
    assert_ne!(c.content_hash(), h);

    let mut c = base.clone();
    c.category[1].plugins[0].commands.push("git-diff".to_string());
    assert_ne!(c.content_hash(), h);

    let mut c = base.clone();
    c.category.pop();
    assert_ne!(c.content_hash(), h);
}

#[test]
fn fingerprint_ignores_non_rendering_fields() {
    let base = sample_config();
    let h = base.content_hash();

    let mut c = base.clone();
    c.triggers = vec!["!".to_string()];
    assert_eq!(c.content_hash(), h);

    let mut c = base.clone();
    c.footer = "elsewhere".to_string();
    assert_eq!(c.content_hash(), h);

    let mut c = base.clone();
    c.config_path = "/other/path.toml".to_string();
    assert_eq!(c.content_hash(), h);
}

#[test]
fn reload_replaces_all_query_fields() {
    let mut c = sample_config();
    c.config_path = "/data/config.toml".to_string();
    let mut fresh = Config::default();
    fresh.title = "新标题".to_string();
    fresh.triggers = vec!["hilfe".to_string()];
    fresh.config_path = "/ignored".to_string();
    assert_eq!(c.reload(Ok(fresh)), Ok(()));
    assert_eq!(c.title, "新标题");
    assert_eq!(c.triggers, vec!["hilfe"]);
    assert!(c.category.is_empty());
    assert_eq!(c.config_path, "/data/config.toml");
}

#[test]
fn failed_reload_leaves_config_untouched() {
    let mut c = sample_config();
    let before = c.clone();
    let h = c.content_hash();
    let hits_before: Vec<_> = c.search("git");
    let r = c.reload(Err("解析配置失败: unexpected token".to_string()));
    assert_eq!(r, Err("解析配置失败: unexpected token".to_string()));
    assert_eq!(c, before);
    assert_eq!(c.content_hash(), h);
    assert_eq!(c.search("git"), hits_before);
}

#[test]
fn category_names_in_declaration_order() {
    let c = sample_config();
    assert_eq!(c.category_names(), vec!["工具", "开发"]);
    assert!(Config::default().category_names().is_empty());
}

#[test]
fn search_matches_one_command() {
    // Two categories, five plugins in total; "git" matches one plugin's
    // command.
    let c = sample_config();
    let hits = c.search("git");
    assert_eq!(hits.len(), 1);
    assert_eq!(hits[0].category, "开发");
    assert_eq!(hits[0].plugin, "仓库助手");
    assert_eq!(hits[0].desc, "Git 仓库管理");
    assert_eq!(hits[0].matched_cmd, Some("git-status".to_string()));
}

#[test]
fn search_keeps_declaration_order() {
    // Keyword matches the second plugin of the first category by name and
    // the only plugin of the second category by command: hits come in
    // declaration order.
    let c = {
        let mut c = Config::default();
        c.category = vec![
            category(
                "A",
                vec![
                    plugin("alpha", "first", &["a-run"]),
                    plugin("kit-box", "second", &["box-run"]),
                ],
            ),
            category("B", vec![plugin("gamma", "third", &["kit-open"])]),
        ];
        c
    };
    let hits = c.search("kit");
    assert_eq!(hits.len(), 2);
    assert_eq!(hits[0].plugin, "kit-box");
    assert_eq!(hits[0].matched_cmd, None);
    assert_eq!(hits[1].plugin, "gamma");
    assert_eq!(hits[1].matched_cmd, Some("kit-open".to_string()));
}

#[test]
fn search_is_case_insensitive() {
    let c = sample_config();
    let hits = c.search("GIT");
    assert_eq!(hits.len(), 1);
    assert_eq!(hits[0].matched_cmd, Some("git-status".to_string()));

    let mut c2 = Config::default();
    c2.category = vec![category("A", vec![plugin("MyTool", "t", &[])])];
    let hits = c2.search("mytool");
    assert_eq!(hits.len(), 1);
    assert_eq!(hits[0].plugin, "MyTool");
}

#[test]
fn search_name_match_wins_over_command_match() {
    let mut c = Config::default();
    c.category = vec![category(
        "A",
        vec![plugin("git-helper", "g", &["git-status"])],
    )];
    let hits = c.search("git");
    assert_eq!(hits.len(), 1);
    assert_eq!(hits[0].matched_cmd, None);
}

#[test]
fn search_reports_first_matching_command() {
    let mut c = Config::default();
    c.category = vec![category(
        "A",
        vec![plugin("tool", "t", &["other", "git-log", "git-status"])],
    )];
    let hits = c.search("git");
    assert_eq!(hits.len(), 1);
    assert_eq!(hits[0].matched_cmd, Some("git-log".to_string()));
}

#[test]
fn search_empty_categories_finds_nothing() {
    let c = Config::default();
    assert!(c.search("help").is_empty());
    assert!(c.category_names().is_empty());
}

#[test]
fn cache_file_name_is_fixed_width_hex() {
    assert_eq!(cache_file_name(0), "help_0000000000000000.png");
    assert_eq!(cache_file_name(255), "help_00000000000000ff.png");
    assert_eq!(
        cache_file_name(0xdeadbeef12345678),
        "help_deadbeef12345678.png"
    );
    assert_ne!(cache_file_name(1), cache_file_name(2));
}

#[test]
fn cache_path_joins_directory_and_name() {
    assert_eq!(
        get_cache_path("/data/help", 255),
        "/data/help/help_00000000000000ff.png"
    );
}

#[test]
fn validity_needs_existing_nonempty_file() {
    assert!(!is_valid(None));
    assert!(!is_valid(Some(0)));
    assert!(is_valid(Some(1)));
    assert!(is_valid(Some(1 << 20)));
}

#[test]
fn managed_names_follow_the_convention() {
    assert!(is_managed_name("help_0000000000000000.png"));
    assert!(is_managed_name("help_.png"));
    assert!(is_managed_name("help_anything.png"));
    assert!(!is_managed_name("notes.txt"));
    assert!(!is_managed_name("help_123.txt"));
    assert!(!is_managed_name("xhelp_0000000000000000.png"));
    assert!(!is_managed_name("h.png"));
    assert!(!is_managed_name(""));
}

#[test]
fn should_delete_spares_current_and_foreign() {
    let keep = 0xabcdu64;
    assert!(!should_delete("help_000000000000abcd.png", keep));
    assert!(!should_delete("config.toml", keep));
    assert!(!should_delete("image.png", keep));
    assert!(should_delete("help_0000000000000001.png", keep));
    assert!(should_delete("help_stale.png", keep));
}

fn listing(names_sizes: &[(&str, u64)]) -> DirModel {
    let mut d = DirModel::new();
    for (n, s) in names_sizes {
        d.add_entry(n.to_string(), *s);
    }
    d
}

fn names(d: &DirModel) -> Vec<String> {
    d.entries.iter().map(|e| e.name.clone()).collect()
}

#[test]
fn cleanup_removes_exactly_stale_artifacts() {
    let keep = 0xffu64;
    let mut d = listing(&[
        ("help_00000000000000ff.png", 10),
        ("help_0000000000000001.png", 10),
        ("config.toml", 3),
        ("help_old.png", 1),
        ("photo.jpg", 9),
    ]);
    d.cleanup(keep);
    assert_eq!(
        names(&d),
        vec!["help_00000000000000ff.png", "config.toml", "photo.jpg"]
    );
    assert_eq!(d.entries[0].size, 10);
}

#[test]
fn purge_removes_every_managed_artifact() {
    let mut d = listing(&[
        ("help_00000000000000ff.png", 10),
        ("config.toml", 3),
        ("help_0000000000000001.png", 10),
    ]);
    d.purge_all();
    assert_eq!(names(&d), vec!["config.toml"]);
}

#[test]
fn store_supersedes_stale_file_of_same_name() {
    let fp = 0x2au64;
    let mut d = listing(&[("help_000000000000002a.png", 0), ("config.toml", 3)]);
    assert!(!d.has_valid(fp));
    d.store_artifact(fp, 2048);
    assert!(d.has_valid(fp));
    assert_eq!(
        names(&d),
        vec!["config.toml", "help_000000000000002a.png"]
    );
    assert_eq!(d.entries[1].size, 2048);
}

#[test]
fn second_request_is_pure_cache_hit() {
    // A miss renders once; after the artifact is stored and cleanup ran, the
    // same fingerprint is a hit and no further render happens.
    let c = sample_config();
    let fp = c.content_hash();
    let mut dir = listing(&[("help_0000000000000009.png", 5), ("config.toml", 3)]);
    let mut renders = 0;

    let (path1, miss1) = ensure_rendered(&dir, "/data/help", fp);
    assert_eq!(path1, get_cache_path("/data/help", fp));
    assert!(miss1);
    if miss1 {
        renders += 1;
        dir.store_artifact(fp, 4096);
        dir.cleanup(fp);
    }

    let (path2, miss2) = ensure_rendered(&dir, "/data/help", fp);
    assert_eq!(path2, path1);
    assert!(!miss2);
    assert_eq!(renders, 1);
    assert_eq!(names(&dir), vec!["config.toml".to_string(), cache_file_name(fp)]);
}

#[test]
fn empty_category_menu_still_renders_chrome() {
    // Empty category list: queries are empty, and the coordinator still
    // produces an artifact keyed by the configuration's fingerprint.
    let c = Config::default();
    assert!(c.category_names().is_empty());
    assert!(c.search("help").is_empty());
    assert_eq!(format_categories(&c.category_names()), "📂 暂无分类配置");

    let fp = c.content_hash();
    let mut dir = DirModel::new();
    let (_, miss) = ensure_rendered(&dir, "/data", fp);
    assert!(miss);
    dir.store_artifact(fp, 512);
    dir.cleanup(fp);
    let (_, miss2) = ensure_rendered(&dir, "/data", fp);
    assert!(!miss2);
}

#[test]
fn format_search_results_nothing_found() {
    assert_eq!(
        format_search_results("xyz", &vec![]),
        "🔍 未找到与「xyz」相关的指令"
    );
}

#[test]
fn format_search_results_lists_hits() {
    let c = sample_config();
    let hits = c.search("git");
    let msg = format_search_results("git", &hits);
    let expected = "🔍 搜索「git」找到 1 条结果：\n\n\
                    1. 【开发】仓库助手\n   📝 Git 仓库管理\n   🎯 匹配: git-status";
    assert_eq!(msg, expected);
}

#[test]
fn format_search_results_numbers_and_separates_entries() {
    let c = {
        let mut c = Config::default();
        c.category = vec![category(
            "A",
            vec![plugin("kit-a", "first", &[]), plugin("kit-b", "second", &[])],
        )];
        c
    };
    let hits = c.search("kit");
    let msg = format_search_results("kit", &hits);
    let expected = "🔍 搜索「kit」找到 2 条结果：\n\n\
                    1. 【A】kit-a\n   📝 first\n\n\
                    2. 【A】kit-b\n   📝 second";
    assert_eq!(msg, expected);
}

#[test]
fn format_search_results_truncates_after_eight() {
    let mut plugins = Vec::new();
    for i in 0..11 {
        plugins.push(plugin(&format!("kit-{}", i), "d", &[]));
    }
    let mut c = Config::default();
    c.category = vec![category("A", plugins)];
    let hits = c.search("kit");
    assert_eq!(hits.len(), 11);
    let msg = format_search_results("kit", &hits);
    assert!(msg.starts_with("🔍 搜索「kit」找到 11 条结果："));
    assert!(msg.contains("8. 【A】kit-7"));
    assert!(!msg.contains("9. 【A】kit-8"));
    assert!(msg.ends_with("...还有 3 条结果"));
}

#[test]
fn format_categories_lists_names() {
    let names = vec!["工具".to_string(), "开发".to_string()];
    let expected = "📂 当前分类列表：\n\n  1. 工具\n  2. 开发\n\n💡 发送「帮助 分类名」可搜索该分类下的指令";
    assert_eq!(format_categories(&names), expected);
}

#[test]
fn format_reload_reply_reports_both_outcomes() {
    assert_eq!(
        format_reload_reply(&Ok(())),
        "✅ 配置重载成功！下次查看帮助将使用新配置"
    );
    assert_eq!(
        format_reload_reply(&Err("读取配置失败: gone".to_string())),
        "❌ 配置重载失败: 读取配置失败: gone"
    );
}

#[test]
fn fingerprint_separates_neighbouring_fields() {
    // Content may not slide between fields or list items.
    let mut a = Config::default();
    a.category = vec![category("A", vec![plugin("t", "d", &["ab"])])];
    let mut b = Config::default();
    b.category = vec![category("A", vec![plugin("t", "d", &["a", "b"])])];
    assert_ne!(a.content_hash(), b.content_hash());

    let mut c = Config::default();
    c.title = "ab".to_string();
    c.subtitle = Some("c".to_string());
    let mut d = Config::default();
    d.title = "a".to_string();
    d.subtitle = Some("bc".to_string());
    assert_ne!(c.content_hash(), d.content_hash());
}

#[test]
fn empty_keyword_matches_every_plugin_by_name() {
    let c = sample_config();
    let hits = c.search("");
    assert_eq!(hits.len(), 5);
    assert!(hits.iter().all(|h| h.matched_cmd.is_none()));
}

#[test]
fn decimal_formatting() {
    assert_eq!(dec_string(0), "0");
    assert_eq!(dec_string(7), "7");
    assert_eq!(dec_string(10), "10");
    assert_eq!(dec_string(12345), "12345");
}

#[test]
fn substring_search() {
    assert!(contains_str("git-status", "git"));
    assert!(contains_str("git-status", ""));
    assert!(contains_str("天气查询", "天气"));
    assert!(!contains_str("git", "git-status"));
    assert!(!contains_str("abc", "abd"));
}
