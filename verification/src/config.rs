//! The configuration store: the in-memory record behind the help menu, its
//! built-in defaults, and atomic replacement of its fields on a reload.
//!
//! Reading and parsing the backing file happens outside this crate; `reload`
//! takes the outcome of that parse and either replaces every
//! rendering-and-query-affecting field at once or leaves the record untouched.

use vstd::prelude::*;
use vstd::string::*;

verus! {

/// One plugin entry inside a category: a name, a short description, the
/// commands it answers to, and an optional icon.
#[derive(Debug, Clone, PartialEq)]
pub struct PluginItem {
    pub name: String,
    pub desc: String,
    pub commands: Vec<String>,
    pub icon: Option<String>,
}

#[verifier::ext_equal]
pub ghost struct PluginItemView {
    pub name: Seq<char>,
    pub desc: Seq<char>,
    pub commands: Seq<Seq<char>>,
    pub icon: Option<Seq<char>>,
}

impl View for PluginItem {
    type V = PluginItemView;

    open spec fn view(&self) -> PluginItemView {
        PluginItemView {
            name: self.name@,
            desc: self.desc@,
            commands: self.commands@.map_values(|c: String| c@),
            icon: match self.icon {
                Option::Some(s) => Option::Some(s@),
                Option::None => Option::None,
            },
        }
    }
}

/// A named group of plugins, with an icon and an optional colour override.
#[derive(Debug, Clone, PartialEq)]
pub struct Category {
    pub name: String,
    pub icon: String,
    pub color: Option<String>,
    pub plugins: Vec<PluginItem>,
}

#[verifier::ext_equal]
pub ghost struct CategoryView {
    pub name: Seq<char>,
    pub icon: Seq<char>,
    pub color: Option<Seq<char>>,
    pub plugins: Seq<PluginItemView>,
}

impl View for Category {
    type V = CategoryView;

    open spec fn view(&self) -> CategoryView {
        CategoryView {
            name: self.name@,
            icon: self.icon@,
            color: match self.color {
                Option::Some(s) => Option::Some(s@),
                Option::None => Option::None,
            },
            plugins: self.plugins@.map_values(|p: PluginItem| p@),
        }
    }
}

/// Colours of the rendered page. The card opacity is kept in hundredths
/// (0 through 100) so that it stays a plain integer.
#[derive(Debug, Clone, PartialEq)]
pub struct Theme {
    pub primary: String,
    pub bg_start: String,
    pub bg_end: String,
    pub card_opacity: u8,
}

#[verifier::ext_equal]
pub ghost struct ThemeView {
    pub primary: Seq<char>,
    pub bg_start: Seq<char>,
    pub bg_end: Seq<char>,
    pub card_opacity: u8,
}

impl View for Theme {
    type V = ThemeView;

    open spec fn view(&self) -> ThemeView {
        ThemeView {
            primary: self.primary@,
            bg_start: self.bg_start@,
            bg_end: self.bg_end@,
            card_opacity: self.card_opacity,
        }
    }
}

pub fn default_primary() -> (r: String)
    ensures
        r@ == "#6366f1"@,
{
    String::from_str("#6366f1")
}

pub fn default_bg_start() -> (r: String)
    ensures
        r@ == "#e0e7ff"@,
{
    String::from_str("#e0e7ff")
}

pub fn default_bg_end() -> (r: String)
    ensures
        r@ == "#fdf4ff"@,
{
    String::from_str("#fdf4ff")
}

pub fn default_card_opacity() -> (r: u8)
    ensures
        r == 85u8,
{
    85
}

impl Default for Theme {
    fn default() -> (r: Theme)
        ensures
            r@.primary == "#6366f1"@,
            r@.bg_start == "#e0e7ff"@,
            r@.bg_end == "#fdf4ff"@,
            r@.card_opacity == 85u8,
    {
        Theme {
            primary: default_primary(),
            bg_start: default_bg_start(),
            bg_end: default_bg_end(),
            card_opacity: default_card_opacity(),
        }
    }
}

/// The whole configuration record. `config_path` remembers where the backing
/// file lives; it never affects rendering or queries.
#[derive(Debug, Clone, PartialEq)]
pub struct Config {
    pub title: String,
    pub subtitle: Option<String>,
    pub footer: String,
    pub theme: Theme,
    pub category: Vec<Category>,
    pub triggers: Vec<String>,
    pub config_path: String,
}

#[verifier::ext_equal]
pub ghost struct ConfigView {
    pub title: Seq<char>,
    pub subtitle: Option<Seq<char>>,
    pub footer: Seq<char>,
    pub theme: ThemeView,
    pub category: Seq<CategoryView>,
    pub triggers: Seq<Seq<char>>,
    pub config_path: Seq<char>,
}

impl View for Config {
    type V = ConfigView;

    open spec fn view(&self) -> ConfigView {
        ConfigView {
            title: self.title@,
            subtitle: match self.subtitle {
                Option::Some(s) => Option::Some(s@),
                Option::None => Option::None,
            },
            footer: self.footer@,
            theme: self.theme@,
            category: self.category@.map_values(|c: Category| c@),
            triggers: self.triggers@.map_values(|t: String| t@),
            config_path: self.config_path@,
        }
    }
}

pub fn default_title() -> (r: String)
    ensures
        r@ == "📚 帮助中心"@,
{
    String::from_str("📚 帮助中心")
}

pub fn default_footer() -> (r: String)
    ensures
        r@ == "Powered by Kovi Framework"@,
{
    String::from_str("Powered by Kovi Framework")
}

pub fn default_triggers() -> (r: Vec<String>)
    ensures
        r@.len() == 6,
        r@[0]@ == "help"@,
        r@[1]@ == "帮助"@,
        r@[2]@ == "菜单"@,
        r@[3]@ == "menu"@,
        r@[4]@ == "指令"@,
        r@[5]@ == "功能"@,
{
    let mut r: Vec<String> = Vec::new();
    r.push(String::from_str("help"));
    r.push(String::from_str("帮助"));
    r.push(String::from_str("菜单"));
    r.push(String::from_str("menu"));
    r.push(String::from_str("指令"));
    r.push(String::from_str("功能"));
    r
}

/// Everything a reload replaces: each field except the backing-file path.
pub open spec fn reloaded_from(after: ConfigView, fresh: ConfigView, before: ConfigView) -> bool {
    &&& after.title == fresh.title
    &&& after.subtitle == fresh.subtitle
    &&& after.footer == fresh.footer
    &&& after.theme == fresh.theme
    &&& after.category == fresh.category
    &&& after.triggers == fresh.triggers
    &&& after.config_path == before.config_path
}

/// The built-in default document as a value usable in contracts.
pub open spec fn default_config_view() -> ConfigView {
    ConfigView {
        title: "📚 帮助中心"@,
        subtitle: Option::None,
        footer: "Powered by Kovi Framework"@,
        theme: ThemeView {
            primary: "#6366f1"@,
            bg_start: "#e0e7ff"@,
            bg_end: "#fdf4ff"@,
            card_opacity: 85u8,
        },
        category: Seq::empty(),
        triggers: seq!["help"@, "帮助"@, "菜单"@, "menu"@, "指令"@, "功能"@],
        config_path: Seq::empty(),
    }
}

impl Default for Config {
    /// The built-in default document: default chrome and theme, no
    /// categories, the standard trigger words, no backing path yet.
    fn default() -> (r: Config)
        ensures
            r@ == default_config_view(),
    {
        let r = Config {
            title: default_title(),
            subtitle: None,
            footer: default_footer(),
            theme: Theme::default(),
            category: Vec::new(),
            triggers: default_triggers(),
            config_path: String::new(),
        };
        proof {
            assert(r@ =~= default_config_view());
        }
        r
    }
}

impl Config {
    /// Startup loading, after the backing file has been read and parsed
    /// outside: a successfully parsed user document wins, anything else
    /// falls back to the built-in defaults. Either way the record remembers
    /// `config_path` as its backing file.
    pub fn load(user: Option<Config>, config_path: String) -> (r: Config)
        ensures
            match user {
                Option::Some(c) => reloaded_from(r@, c@, r@),
                Option::None => reloaded_from(r@, default_config_view(), r@),
            },
            r@.config_path == config_path@,
    {
        let mut base = match user {
            Some(c) => c,
            None => Config::default(),
        };
        base.config_path = config_path;
        base
    }

    /// Replace the configuration from a freshly parsed backing file, or keep
    /// it untouched when reading or parsing failed. The parse outcome comes
    /// from outside; the replacement itself is all-or-nothing.
    pub fn reload(&mut self, parsed: Result<Config, String>) -> (r: Result<(), String>)
        ensures
            parsed matches Ok(c) ==> reloaded_from(final(self)@, c@, old(self)@) && r is Ok,
            parsed matches Err(e) ==> *final(self) == *old(self) && r == Err::<(), String>(e),
    {
        match parsed {
            Ok(c) => {
                self.title = c.title;
                self.subtitle = c.subtitle;
                self.footer = c.footer;
                self.theme = c.theme;
                self.category = c.category;
                self.triggers = c.triggers;
                Ok(())
            },
            Err(e) => Err(e),
        }
    }

    /// The category names, in declaration order.
    pub fn category_names(&self) -> (r: Vec<String>)
        ensures
            r@.map_values(|s: String| s@) == self@.category.map_values(
                |c: CategoryView| c.name,
            ),
    {
        let mut r: Vec<String> = Vec::new();
        let mut i: usize = 0;
        while i < self.category.len()
            invariant
                i <= self.category@.len(),
                r@.len() == i,
                forall|k: int| 0 <= k < i ==> #[trigger] r@[k]@ == self@.category[k].name,
            decreases self.category@.len() - i,
        {
            r.push(self.category[i].name.clone());
            i = i + 1;
        }
        proof {
            assert(r@.map_values(|s: String| s@) =~= self@.category.map_values(
                |c: CategoryView| c.name,
            ));
        }
        r
    }
}

/// One search hit: where it was found and, when the match was on a command
/// rather than the plugin name, which command matched.
#[derive(Debug, Clone, PartialEq)]
pub struct SearchResult {
    pub category: String,
    pub plugin: String,
    pub desc: String,
    pub matched_cmd: Option<String>,
}

#[verifier::ext_equal]
pub ghost struct SearchResultView {
    pub category: Seq<char>,
    pub plugin: Seq<char>,
    pub desc: Seq<char>,
    pub matched_cmd: Option<Seq<char>>,
}

impl View for SearchResult {
    type V = SearchResultView;

    open spec fn view(&self) -> SearchResultView {
        SearchResultView {
            category: self.category@,
            plugin: self.plugin@,
            desc: self.desc@,
            matched_cmd: match self.matched_cmd {
                Option::Some(s) => Option::Some(s@),
                Option::None => Option::None,
            },
        }
    }
}

} // verus!
