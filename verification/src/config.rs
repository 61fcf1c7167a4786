use crate::error::{ErrorView, SorryError};
use crate::text::{
    chars_of, decimal, digit_char, lemma_decimal_value, lemma_digit_char_value, parse_number,
    parse_usize, push_decimal, same_text, string_of, texts, trim, trim_chars, trim_end,
    trim_start, trimmed,
};
use vstd::prelude::*;
use vstd::string::StringExecFns;

verus! {

/// How to reach one provider of chat completions.
#[derive(Debug)]
pub struct ProviderConfig {
    pub api_key: String,
    pub base_url: String,
    pub model: String,
}

/// A `ProviderConfig` with its texts as sequences of characters.
pub struct ProviderView {
    pub api_key: Seq<char>,
    pub base_url: Seq<char>,
    pub model: Seq<char>,
}

impl View for ProviderConfig {
    type V = ProviderView;

    open spec fn view(&self) -> ProviderView {
        ProviderView { api_key: self.api_key@, base_url: self.base_url@, model: self.model@ }
    }
}

impl Clone for ProviderConfig {
    fn clone(&self) -> (r: Self)
        ensures
            r@ == self@,
    {
        ProviderConfig {
            api_key: self.api_key.clone(),
            base_url: self.base_url.clone(),
            model: self.model.clone(),
        }
    }
}

/// The personality in which the assistant answers.
#[derive(Debug, Clone, Copy, PartialEq, Eq, Structural)]
pub enum Mood {
    Princess,
    Bro,
    Bitch,
}

impl Default for Mood {
    fn default() -> (r: Mood)
        ensures
            r == Mood::Princess,
    {
        Mood::Princess
    }
}

/// The mood that is in force where `mood` may be unset.
pub open spec fn mood_or_default(mood: Option<Mood>) -> Mood {
    match mood {
        Some(m) => m,
        None => Mood::Princess,
    }
}

/// The rules that every system prompt begins with.
pub open spec fn rule_block() -> Seq<char> {
    "Answer the questions concisely and to the point. If there's multiple fixes, list the most likely one only. The goal is to not exceed a couple of paragraphs and sentences. Don't use markdown formatting, just normal text. Don't use dashes. Use the terminal history for context when it is given. Fix the immediate problem only.\n"@
}

impl Mood {
    /// The name under which the mood is offered.
    pub open spec fn name_text(self) -> Seq<char> {
        match self {
            Mood::Princess => "Treat me like a princess"@,
            Mood::Bro => "Treat me like a bro"@,
            Mood::Bitch => "Treat me like a bitch"@,
        }
    }

    /// What the mood adds to the system prompt.
    pub open spec fn personality_text(self) -> Seq<char> {
        match self {
            Mood::Princess => "You are a kind, patient, and supportive assistant helping developers with their terminal and git mistakes. Be gentle and reassuring. Use encouraging language like 'Don't worry, we've all been there!' and 'You're doing great!'. Explain things carefully and make the user feel safe and supported. Add a sprinkle of warmth and care to your responses. When suggesting commands, explain what they do in a friendly, non-intimidating way."@,
            Mood::Bro => "You are a chill bro helping your buddy out with terminal and git mistakes. Keep it casual and relaxed. Use language like 'no worries dude', 'easy fix bro', 'been there man'. Be helpful but keep it brief and to the point. Don't over-explain things. Throw in some casual humor when appropriate. You're just helping a friend out, no big deal."@,
            Mood::Bitch => "You are a brutally honest, sassy assistant who roasts developers for their terminal mistakes. Be harsh, sarcastic, and borderline offensive. Call them names like 'idiot', 'dumbass', 'genius'. Mock their mistakes mercilessly. Say things like 'Are you serious right now?', 'How do you even have a job?', 'My grandma could git better than you', 'Did you even try googling this before bothering me?'. BUT still actually help them fix the problem - you're mean, not useless. Give the correct solution while making them feel bad about needing to ask. End with backhanded compliments like 'Now try not to fuck it up again, okay sweetie?'"@,
        }
    }

    /// The mood offered under a number of the menu, which counts from one.
    pub open spec fn at_index(idx: usize) -> Option<Mood> {
        if idx == 1 {
            Some(Mood::Princess)
        } else if idx == 2 {
            Some(Mood::Bro)
        } else if idx == 3 {
            Some(Mood::Bitch)
        } else {
            None
        }
    }

    /// The name under which the mood is offered.
    pub fn display_name(&self) -> (r: &'static str)
        ensures
            r@ == self.name_text(),
    {
        match self {
            Mood::Princess => "Treat me like a princess",
            Mood::Bro => "Treat me like a bro",
            Mood::Bitch => "Treat me like a bitch",
        }
    }

    fn personality(&self) -> (r: &'static str)
        ensures
            r@ == self.personality_text(),
    {
        match self {
            Mood::Princess => "You are a kind, patient, and supportive assistant helping developers with their terminal and git mistakes. Be gentle and reassuring. Use encouraging language like 'Don't worry, we've all been there!' and 'You're doing great!'. Explain things carefully and make the user feel safe and supported. Add a sprinkle of warmth and care to your responses. When suggesting commands, explain what they do in a friendly, non-intimidating way.",
            Mood::Bro => "You are a chill bro helping your buddy out with terminal and git mistakes. Keep it casual and relaxed. Use language like 'no worries dude', 'easy fix bro', 'been there man'. Be helpful but keep it brief and to the point. Don't over-explain things. Throw in some casual humor when appropriate. You're just helping a friend out, no big deal.",
            Mood::Bitch => "You are a brutally honest, sassy assistant who roasts developers for their terminal mistakes. Be harsh, sarcastic, and borderline offensive. Call them names like 'idiot', 'dumbass', 'genius'. Mock their mistakes mercilessly. Say things like 'Are you serious right now?', 'How do you even have a job?', 'My grandma could git better than you', 'Did you even try googling this before bothering me?'. BUT still actually help them fix the problem - you're mean, not useless. Give the correct solution while making them feel bad about needing to ask. End with backhanded compliments like 'Now try not to fuck it up again, okay sweetie?'",
        }
    }

    /// The system prompt of the mood: the shared rules, then the mood's
    /// own personality.
    pub fn system_prompt(&self) -> (r: String)
        ensures
            r@ == rule_block() + self.personality_text(),
    {
        let mut out = String::from_str(
            "Answer the questions concisely and to the point. If there's multiple fixes, list the most likely one only. The goal is to not exceed a couple of paragraphs and sentences. Don't use markdown formatting, just normal text. Don't use dashes. Use the terminal history for context when it is given. Fix the immediate problem only.\n",
        );
        out.append(self.personality());
        out
    }

    /// All moods, in the order of the menu.
    pub fn all() -> (r: Vec<Mood>)
        ensures
            r@ == seq![Mood::Princess, Mood::Bro, Mood::Bitch],
            forall|i: int| 0 <= i < 3 ==> Mood::at_index((i + 1) as usize) == Some(#[trigger] r@[i]),
    {
        let mut v: Vec<Mood> = Vec::new();
        v.push(Mood::Princess);
        v.push(Mood::Bro);
        v.push(Mood::Bitch);
        assert(v@ =~= seq![Mood::Princess, Mood::Bro, Mood::Bitch]);
        v
    }

    /// The mood under a number of the menu: one, two or three.
    pub fn from_index(idx: usize) -> (r: Option<Mood>)
        ensures
            r == Mood::at_index(idx),
            r is Some <==> 1 <= idx <= 3,
    {
        if idx == 1 {
            Some(Mood::Princess)
        } else if idx == 2 {
            Some(Mood::Bro)
        } else if idx == 3 {
            Some(Mood::Bitch)
        } else {
            None
        }
    }
}

/// The model that a provider is configured with where none is named.
pub open spec fn default_model_text(provider: Seq<char>) -> Seq<char> {
    if provider == "groq"@ {
        "openai/gpt-oss-20b"@
    } else {
        "gpt-4.1-mini"@
    }
}

/// The address under which a provider is reached by default.
pub open spec fn default_base_url_text(provider: Seq<char>) -> Seq<char> {
    if provider == "groq"@ {
        "https://api.groq.com/openai/v1"@
    } else {
        "https://api.openai.com/v1"@
    }
}

/// The model that a provider is configured with where none is named.
pub fn default_model(provider: &str) -> (r: &'static str)
    ensures
        r@ == default_model_text(provider@),
{
    if same_text(provider, "groq") {
        "openai/gpt-oss-20b"
    } else {
        "gpt-4.1-mini"
    }
}

/// The address under which a provider is reached by default.
pub fn default_base_url(provider: &str) -> (r: &'static str)
    ensures
        r@ == default_base_url_text(provider@),
{
    if same_text(provider, "groq") {
        "https://api.groq.com/openai/v1"
    } else {
        "https://api.openai.com/v1"
    }
}

/// A provider's name with its configuration.
#[derive(Debug)]
pub struct ProviderEntry {
    pub name: String,
    pub config: ProviderConfig,
}

impl View for ProviderEntry {
    type V = (Seq<char>, ProviderView);

    open spec fn view(&self) -> (Seq<char>, ProviderView) {
        (self.name@, self.config@)
    }
}

/// The views of a sequence of entries.
pub open spec fn entry_views(v: Seq<ProviderEntry>) -> Seq<(Seq<char>, ProviderView)> {
    v.map_values(|e: ProviderEntry| e@)
}

/// The map that a sequence of entries stands for: each name with its
/// configuration; of two entries with one name, the later one counts.
pub open spec fn entries_map(s: Seq<(Seq<char>, ProviderView)>) -> Map<Seq<char>, ProviderView>
    decreases s.len(),
{
    if s.len() == 0 {
        Map::empty()
    } else {
        entries_map(s.drop_last()).insert(s.last().0, s.last().1)
    }
}

/// The last position in `s` of an entry named `k`, or -1 where there is
/// none.
pub open spec fn last_position(s: Seq<(Seq<char>, ProviderView)>, k: Seq<char>) -> int
    decreases s.len(),
{
    if s.len() == 0 {
        -1
    } else if s.last().0 == k {
        s.len() - 1
    } else {
        last_position(s.drop_last(), k)
    }
}

/// Whether no two entries of `s` have the same name.
pub open spec fn distinct_names(s: Seq<(Seq<char>, ProviderView)>) -> bool {
    forall|i: int, j: int| 0 <= i < j < s.len() ==> (#[trigger] s[i]).0 != (#[trigger] s[j]).0
}

/// The map holds a name exactly where an entry has it, and then holds what
/// the last such entry holds.
pub proof fn lemma_entries_map(s: Seq<(Seq<char>, ProviderView)>, k: Seq<char>)
    ensures
        -1 <= last_position(s, k) < s.len(),
        entries_map(s).contains_key(k) == (last_position(s, k) >= 0),
        last_position(s, k) >= 0 ==> s[last_position(s, k)].0 == k && entries_map(s)[k]
            == s[last_position(s, k)].1,
        forall|i: int| last_position(s, k) < i < s.len() ==> (#[trigger] s[i]).0 != k,
    decreases s.len(),
{
    if s.len() > 0 {
        lemma_entries_map(s.drop_last(), k);
        if s.last().0 != k {
            assert forall|i: int| last_position(s, k) < i < s.len() implies (#[trigger] s[i]).0
                != k by {
                if i < s.len() - 1 {
                    assert(s.drop_last()[i] == s[i]);
                }
            }
        }
    }
}

/// Replacing an entry by one of the same name leaves every name where it
/// was.
pub proof fn lemma_position_after_update(
    s: Seq<(Seq<char>, ProviderView)>,
    i: int,
    v: ProviderView,
    k: Seq<char>,
)
    requires
        0 <= i < s.len(),
    ensures
        last_position(s.update(i, (s[i].0, v)), k) == last_position(s, k),
    decreases s.len(),
{
    let t = s.update(i, (s[i].0, v));
    if i == s.len() - 1 {
        assert(t.drop_last() =~= s.drop_last());
    } else {
        assert(t.drop_last() =~= s.drop_last().update(i, (s[i].0, v)));
        lemma_position_after_update(s.drop_last(), i, v, k);
    }
}

/// Replacing the entry of a name changes the map as an insertion does.
pub proof fn lemma_update_is_insert(s: Seq<(Seq<char>, ProviderView)>, i: int, v: ProviderView)
    requires
        0 <= i < s.len(),
        i == last_position(s, s[i].0),
    ensures
        entries_map(s.update(i, (s[i].0, v))) == entries_map(s).insert(s[i].0, v),
{
    let t = s.update(i, (s[i].0, v));
    let a = entries_map(t);
    let b = entries_map(s).insert(s[i].0, v);
    assert forall|k: Seq<char>| #[trigger] a.dom().contains(k) == b.dom().contains(k) by {
        lemma_entries_map(s, k);
        lemma_entries_map(t, k);
        lemma_position_after_update(s, i, v, k);
    }
    assert forall|k: Seq<char>| #[trigger] a.dom().contains(k) implies a[k] == b[k] by {
        lemma_entries_map(s, k);
        lemma_entries_map(t, k);
        lemma_position_after_update(s, i, v, k);
    }
    assert(a =~= b);
}

/// The configured providers, each under its name.
#[derive(Debug)]
pub struct Providers {
    entries: Vec<ProviderEntry>,
}

impl View for Providers {
    type V = Map<Seq<char>, ProviderView>;

    closed spec fn view(&self) -> Map<Seq<char>, ProviderView> {
        entries_map(entry_views(self.entries@))
    }
}

impl Providers {
    /// No two entries have the same name.
    #[verifier::type_invariant]
    spec fn names_are_distinct(&self) -> bool {
        distinct_names(entry_views(self.entries@))
    }

    /// No providers.
    pub fn new() -> (r: Providers)
        ensures
            r@ == Map::<Seq<char>, ProviderView>::empty(),
    {
        let r = Providers { entries: Vec::new() };
        assert(entry_views(r.entries@) =~= Seq::empty());
        r
    }

    fn find(&self, name: &str) -> (r: Option<usize>)
        ensures
            match r {
                Some(i) => i == last_position(entry_views(self.entries@), name@),
                None => last_position(entry_views(self.entries@), name@) == -1,
            },
    {
        let ghost s = entry_views(self.entries@);
        let mut i: usize = self.entries.len();
        assert(s.take(i as int) =~= s);
        while i > 0
            invariant
                i <= self.entries.len(),
                s == entry_views(self.entries@),
                last_position(s, name@) == last_position(s.take(i as int), name@),
            decreases i,
        {
            proof {
                assert(s.take(i as int).drop_last() =~= s.take(i - 1));
                assert(s.take(i as int).last() == self.entries@[i - 1]@);
            }
            if same_text(self.entries[i - 1].name.as_str(), name) {
                return Some(i - 1);
            }
            i = i - 1;
        }
        None
    }

    /// Whether there is no provider at all.
    pub fn is_empty(&self) -> (r: bool)
        ensures
            r == (self@ == Map::<Seq<char>, ProviderView>::empty()),
    {
        let r = self.entries.len() == 0;
        proof {
            let s = entry_views(self.entries@);
            if r {
                assert(s =~= Seq::empty());
            } else {
                assert(self@.contains_key(s.last().0));
            }
        }
        r
    }

    /// The configuration of the provider of that name.
    pub fn get(&self, name: &str) -> (r: Option<&ProviderConfig>)
        ensures
            r is Some == self@.contains_key(name@),
            r is Some ==> r->0@ == self@[name@],
    {
        proof {
            lemma_entries_map(entry_views(self.entries@), name@);
        }
        match self.find(name) {
            Some(i) => Some(&self.entries[i].config),
            None => None,
        }
    }

    /// The providers with one more put under a name, in place of the one
    /// that was there.
    pub fn insert(self, name: &str, config: ProviderConfig) -> (r: Providers)
        ensures
            r@ == self@.insert(name@, config@),
    {
        let ghost s = entry_views(self.entries@);
        proof {
            use_type_invariant(&self);
            lemma_entries_map(s, name@);
        }
        let entry = ProviderEntry { name: String::from_str(name), config };
        let found = self.find(name);
        let mut entries = self.entries;
        match found {
            Some(i) => {
                entries.set(i, entry);
                proof {
                    let t = s.update(i as int, (s[i as int].0, config@));
                    assert(entry_views(entries@) =~= t);
                    lemma_update_is_insert(s, i as int, config@);
                    assert(distinct_names(t)) by {
                        assert forall|a: int, b: int| 0 <= a < b < t.len() implies (#[trigger] t[a]).0
                            != (#[trigger] t[b]).0 by {
                            assert(t[a].0 == s[a].0 && t[b].0 == s[b].0);
                        }
                    }
                }
            },
            None => {
                entries.push(entry);
                proof {
                    let t = s.push((name@, config@));
                    assert(entry_views(entries@) =~= t);
                    assert(t.drop_last() =~= s);
                    assert(distinct_names(t)) by {
                        assert forall|a: int, b: int| 0 <= a < b < t.len() implies (#[trigger] t[a]).0
                            != (#[trigger] t[b]).0 by {
                            assert(t[a] == s[a]);
                            if b < s.len() {
                                assert(t[b] == s[b]);
                            }
                        }
                    }
                }
            },
        }
        Providers { entries }
    }

    /// The providers as a list of entries, no name twice.
    pub fn to_entries(&self) -> (r: Vec<ProviderEntry>)
        ensures
            entries_map(entry_views(r@)) == self@,
            distinct_names(entry_views(r@)),
    {
        proof {
            use_type_invariant(self);
        }
        let mut out: Vec<ProviderEntry> = Vec::new();
        let mut i: usize = 0;
        while i < self.entries.len()
            invariant
                i <= self.entries.len(),
                entry_views(out@) =~= entry_views(self.entries@).take(i as int),
            decreases self.entries.len() - i,
        {
            let e = &self.entries[i];
            let ghost before = entry_views(out@);
            out.push(ProviderEntry { name: e.name.clone(), config: e.config.clone() });
            assert(entry_views(out@) =~= before.push(e@));
            i = i + 1;
        }
        assert(entry_views(self.entries@).take(i as int) =~= entry_views(self.entries@));
        out
    }

    /// The providers that a list of entries stands for: of two entries
    /// with one name, the later one counts.
    pub fn from_entries(entries: Vec<ProviderEntry>) -> (r: Providers)
        ensures
            r@ == entries_map(entry_views(entries@)),
    {
        let mut out = Providers::new();
        let mut i: usize = 0;
        assert(entry_views(entries@).take(0) =~= Seq::empty());
        while i < entries.len()
            invariant
                i <= entries.len(),
                out@ == entries_map(entry_views(entries@).take(i as int)),
            decreases entries.len() - i,
        {
            proof {
                let s = entry_views(entries@).take(i + 1);
                assert(s.drop_last() =~= entry_views(entries@).take(i as int));
                assert(s.last() == entries@[i as int]@);
            }
            let e = &entries[i];
            out = out.insert(e.name.as_str(), e.config.clone());
            i = i + 1;
        }
        assert(entry_views(entries@).take(i as int) =~= entry_views(entries@));
        out
    }
}

/// What the tool remembers between invocations.
#[derive(Debug)]
pub struct Config {
    /// The name of the provider in use.
    pub provider: Option<String>,
    /// The mood in use.
    pub mood: Option<Mood>,
    pub providers: Providers,
}

/// A `Config` with its texts as sequences of characters and its providers
/// as a map.
pub struct ConfigView {
    pub provider: Option<Seq<char>>,
    pub mood: Option<Mood>,
    pub providers: Map<Seq<char>, ProviderView>,
}

impl View for Config {
    type V = ConfigView;

    open spec fn view(&self) -> ConfigView {
        ConfigView {
            provider: match self.provider {
                Some(p) => Some(p@),
                None => None,
            },
            mood: self.mood,
            providers: self.providers@,
        }
    }
}

impl Default for Config {
    fn default() -> (r: Config)
        ensures
            r@ == (ConfigView { provider: None, mood: None, providers: Map::empty() }),
    {
        Config { provider: None, mood: None, providers: Providers::new() }
    }
}

/// A provider as it is before the user has configured it: no key, and the
/// model and address that go with its name.
pub open spec fn default_provider_view(name: Seq<char>) -> ProviderView {
    ProviderView {
        api_key: Seq::empty(),
        base_url: default_base_url_text(name),
        model: default_model_text(name),
    }
}

/// The providers that the tool knows of itself.
pub open spec fn default_providers_map() -> Map<Seq<char>, ProviderView> {
    Map::<Seq<char>, ProviderView>::empty().insert(
        "openai"@,
        default_provider_view("openai"@),
    ).insert("groq"@, default_provider_view("groq"@))
}

fn default_provider(name: &str) -> (r: ProviderConfig)
    ensures
        r@ == default_provider_view(name@),
{
    ProviderConfig {
        api_key: String::new(),
        base_url: String::from_str(default_base_url(name)),
        model: String::from_str(default_model(name)),
    }
}

impl Config {
    /// The providers that the tool knows of itself, none of them with a
    /// key.
    pub fn default_providers() -> (r: Providers)
        ensures
            r@ == default_providers_map(),
    {
        let p = Providers::new();
        let p = p.insert("openai", default_provider("openai"));
        p.insert("groq", default_provider("groq"))
    }
}

/// The model that is configured: the one entered, or the provider's
/// default where nothing was entered.
pub open spec fn chosen_model(provider: Seq<char>, model_input: Seq<char>) -> Seq<char> {
    if trim(model_input).len() == 0 {
        default_model_text(provider)
    } else {
        trim(model_input)
    }
}

/// The configuration after a provider was set up with a key and a model.
/// Where no provider was configured at all, the known ones come first. The
/// provider keeps its address where it was configured before, and gets the
/// default one where it was not; it becomes the provider in use.
pub open spec fn configured(
    old_config: ConfigView,
    provider: Seq<char>,
    api_key_input: Seq<char>,
    model_input: Seq<char>,
) -> ConfigView {
    let base = if old_config.providers == Map::<Seq<char>, ProviderView>::empty() {
        default_providers_map()
    } else {
        old_config.providers
    };
    let base_url = if base.contains_key(provider) {
        base[provider].base_url
    } else {
        default_base_url_text(provider)
    };
    ConfigView {
        provider: Some(provider),
        mood: old_config.mood,
        providers: base.insert(
            provider,
            ProviderView {
                api_key: trim(api_key_input),
                base_url,
                model: chosen_model(provider, model_input),
            },
        ),
    }
}

/// Sets a provider up with the key and the model that the user entered,
/// and makes it the provider in use. A key that is blank is refused.
pub fn configure_provider(
    config: Config,
    provider: &str,
    api_key_input: &str,
    model_input: &str,
) -> (r: Result<Config, SorryError>)
    ensures
        match r {
            Ok(c) => trim(api_key_input@).len() > 0 && c@ == configured(
                config@,
                provider@,
                api_key_input@,
                model_input@,
            ),
            Err(e) => trim(api_key_input@).len() == 0 && e@ == ErrorView::EmptyApiKey,
        },
{
    let api_key = trimmed(api_key_input);
    if api_key.as_str().is_empty() {
        return Err(SorryError::EmptyApiKey);
    }
    let Config { provider: _, mood, providers } = config;
    let providers = if providers.is_empty() {
        Config::default_providers()
    } else {
        providers
    };
    let entered = trimmed(model_input);
    let model = if entered.as_str().is_empty() {
        String::from_str(default_model(provider))
    } else {
        entered
    };
    let base_url = match providers.get(provider) {
        Some(known) => known.base_url.clone(),
        None => String::from_str(default_base_url(provider)),
    };
    let providers = providers.insert(provider, ProviderConfig { api_key, base_url, model });
    Ok(Config { provider: Some(String::from_str(provider)), mood, providers })
}

/// The mood that an entered line selects: the line, without surrounding
/// white space, must be one of the menu's numbers.
pub open spec fn selected_mood(input: Seq<char>) -> Option<Mood> {
    match parse_number(trim(input)) {
        Some(idx) => Mood::at_index(idx),
        None => None,
    }
}

/// Takes the user's choice from the menu of moods. A line that selects a
/// mood stores it; any other line leaves the configuration as it was. The
/// second result is the mood that was selected, if one was.
pub fn select_mood(config: Config, input: &str) -> (r: (Config, Option<Mood>))
    ensures
        r.1 == selected_mood(input@),
        r.0@.provider == config@.provider,
        r.0@.providers == config@.providers,
        r.0@.mood == mood_after(config@.mood, input@),
{
    let chars = chars_of(input);
    let line = trim_chars(&chars);
    let choice = match parse_usize(&line) {
        Some(idx) => Mood::from_index(idx),
        None => None,
    };
    match choice {
        Some(m) => {
            let Config { provider, mood: _, providers } = config;
            (Config { provider, mood: Some(m), providers }, Some(m))
        },
        None => (config, None),
    }
}

/// The stored mood after the user's choice from the menu.
pub open spec fn mood_after(stored: Option<Mood>, input: Seq<char>) -> Option<Mood> {
    match selected_mood(input) {
        Some(m) => Some(m),
        None => stored,
    }
}

/// A selection that is none of the menu's numbers leaves the stored mood
/// as it was.
pub proof fn selection_outside_menu_keeps_mood(stored: Option<Mood>, input: Seq<char>)
    requires
        match parse_number(trim(input)) {
            Some(idx) => !(1 <= idx <= 3),
            None => true,
        },
    ensures
        mood_after(stored, input) == stored,
{
}

/// Entering the number under which the menu offers a mood selects that
/// mood.
pub proof fn menu_number_selects_its_mood(number: usize)
    requires
        1 <= number <= 3,
    ensures
        selected_mood(decimal(number as nat)) == Mood::at_index(number),
        selected_mood(decimal(number as nat)) is Some,
{
    let s = decimal(number as nat);
    lemma_decimal_value(number as nat);
    lemma_digit_char_value(number as nat);
    assert(s =~= seq![digit_char(number as nat)]);
    assert(trim_start(s) == s);
    assert(trim_end(s) == s);
}

/// One line of the menu of moods: the number, the mood's name, and a mark
/// where the mood is the one in force.
pub open spec fn menu_line(number: nat, mood: Mood, current: Mood) -> Seq<char> {
    "  "@ + decimal(number) + ". "@ + mood.name_text() + if mood == current {
        " (current)"@
    } else {
        Seq::empty()
    }
}

/// The menu of moods, one line for each, in the order of their numbers.
pub open spec fn menu_lines(stored: Option<Mood>) -> Seq<Seq<char>> {
    let current = mood_or_default(stored);
    seq![
        menu_line(1, Mood::Princess, current),
        menu_line(2, Mood::Bro, current),
        menu_line(3, Mood::Bitch, current),
    ]
}

/// The menu of moods as lines of text.
pub fn mood_menu(stored: Option<Mood>) -> (r: Vec<String>)
    ensures
        texts(r@) == menu_lines(stored),
{
    let current = match stored {
        Some(m) => m,
        None => Mood::Princess,
    };
    let moods = Mood::all();
    let mut out: Vec<String> = Vec::new();
    let mut i: usize = 0;
    while i < 3
        invariant
            i <= 3,
            moods@ == seq![Mood::Princess, Mood::Bro, Mood::Bitch],
            current == mood_or_default(stored),
            texts(out@) =~= menu_lines(stored).take(i as int),
        decreases 3 - i,
    {
        let mood = moods[i];
        let mut digits: Vec<char> = Vec::new();
        push_decimal(&mut digits, i + 1);
        let number = string_of(&digits);
        let mut line = String::from_str("  ");
        line.append(number.as_str());
        line.append(". ");
        line.append(mood.display_name());
        if mood == current {
            line.append(" (current)");
        }
        proof {
            assert(digits@ =~= decimal((i + 1) as nat));
            assert(line@ =~= menu_line((i + 1) as nat, mood, current));
        }
        let ghost before = texts(out@);
        out.push(line);
        assert(texts(out@) =~= before.push(line@));
        i = i + 1;
    }
    assert(menu_lines(stored).take(3) =~= menu_lines(stored));
    out
}

/// What is shown of a provider: its address, its model, and whether it
/// has a key, never the key.
pub open spec fn provider_summary(p: ProviderView) -> Seq<Seq<char>> {
    seq![
        "  Base URL: "@ + p.base_url,
        "  Model: "@ + p.model,
        "  API Key: "@ + if p.api_key.len() == 0 {
            "not set"@
        } else {
            "configured (hidden)"@
        },
    ]
}

/// The lines in which a configuration is shown: the mood in force, then
/// the provider in use with what is known of it, or a hint where none is
/// selected.
pub open spec fn config_summary(c: ConfigView) -> Seq<Seq<char>> {
    seq![Seq::<char>::empty(), "Mood: "@ + mood_or_default(c.mood).name_text(), Seq::<char>::empty()]
        + match c.provider {
        Some(p) => seq!["Provider: "@ + p] + if c.providers.contains_key(p) {
            provider_summary(c.providers[p])
        } else {
            Seq::empty()
        },
        None => seq![
            "Provider: not configured"@,
            "Run 'sorry --config-openai' or 'sorry --config-groq' to set up."@,
        ],
    } + seq![Seq::<char>::empty()]
}

fn labelled(label: &str, value: &str) -> (r: String)
    ensures
        r@ == label@ + value@,
{
    let mut out = String::from_str(label);
    out.append(value);
    out
}

fn push_line(out: &mut Vec<String>, line: String)
    ensures
        texts(final(out)@) == texts(old(out)@).push(line@),
{
    out.push(line);
    assert(texts(out@) =~= texts(old(out)@).push(line@));
}

/// The lines in which the configuration is shown to the user.
pub fn describe_config(config: &Config) -> (r: Vec<String>)
    ensures
        texts(r@) == config_summary(config@),
{
    let mood = match config.mood {
        Some(m) => m,
        None => Mood::Princess,
    };
    let mut out: Vec<String> = Vec::new();
    assert(texts(out@) =~= Seq::empty());
    push_line(&mut out, String::new());
    push_line(&mut out, labelled("Mood: ", mood.display_name()));
    push_line(&mut out, String::new());
    match &config.provider {
        Some(p) => {
            push_line(&mut out, labelled("Provider: ", p.as_str()));
            match config.providers.get(p.as_str()) {
                Some(pc) => {
                    push_line(&mut out, labelled("  Base URL: ", pc.base_url.as_str()));
                    push_line(&mut out, labelled("  Model: ", pc.model.as_str()));
                    let key_status = if pc.api_key.as_str().is_empty() {
                        "not set"
                    } else {
                        "configured (hidden)"
                    };
                    push_line(&mut out, labelled("  API Key: ", key_status));
                },
                None => {},
            }
        },
        None => {
            push_line(&mut out, String::from_str("Provider: not configured"));
            push_line(
                &mut out,
                String::from_str("Run 'sorry --config-openai' or 'sorry --config-groq' to set up."),
            );
        },
    }
    push_line(&mut out, String::new());
    assert(texts(out@) =~= config_summary(config@));
    out
}

/// The models of OpenAI that are suggested to the user.
pub fn openai_models() -> (r: Vec<String>)
    ensures
        texts(r@) == seq![
            "gpt-4.1-mini"@,
            "gpt-4.1-nano"@,
            "gpt-4.1"@,
            "gpt-4o"@,
            "gpt-4o-mini"@,
            "o1"@,
            "o1-mini"@,
            "o3-mini"@,
        ],
{
    let mut out: Vec<String> = Vec::new();
    assert(texts(out@) =~= Seq::empty());
    push_line(&mut out, String::from_str("gpt-4.1-mini"));
    push_line(&mut out, String::from_str("gpt-4.1-nano"));
    push_line(&mut out, String::from_str("gpt-4.1"));
    push_line(&mut out, String::from_str("gpt-4o"));
    push_line(&mut out, String::from_str("gpt-4o-mini"));
    push_line(&mut out, String::from_str("o1"));
    push_line(&mut out, String::from_str("o1-mini"));
    push_line(&mut out, String::from_str("o3-mini"));
    assert(texts(out@) =~= seq![
        "gpt-4.1-mini"@,
        "gpt-4.1-nano"@,
        "gpt-4.1"@,
        "gpt-4o"@,
        "gpt-4o-mini"@,
        "o1"@,
        "o1-mini"@,
        "o3-mini"@,
    ]);
    out
}

/// The models of Groq that are suggested to the user.
pub fn groq_models() -> (r: Vec<String>)
    ensures
        texts(r@) == seq![
            "llama-3.3-70b-versatile"@,
            "llama-3.1-8b-instant"@,
            "llama3-70b-8192"@,
            "llama3-8b-8192"@,
            "mixtral-8x7b-32768"@,
            "gemma2-9b-it"@,
        ],
{
    let mut out: Vec<String> = Vec::new();
    assert(texts(out@) =~= Seq::empty());
    push_line(&mut out, String::from_str("llama-3.3-70b-versatile"));
    push_line(&mut out, String::from_str("llama-3.1-8b-instant"));
    push_line(&mut out, String::from_str("llama3-70b-8192"));
    push_line(&mut out, String::from_str("llama3-8b-8192"));
    push_line(&mut out, String::from_str("mixtral-8x7b-32768"));
    push_line(&mut out, String::from_str("gemma2-9b-it"));
    assert(texts(out@) =~= seq![
        "llama-3.3-70b-versatile"@,
        "llama-3.1-8b-instant"@,
        "llama3-70b-8192"@,
        "llama3-8b-8192"@,
        "mixtral-8x7b-32768"@,
        "gemma2-9b-it"@,
    ]);
    out
}

} // verus!
