use crate::config::{
    entries_map, entry_views, Config, ConfigView, Mood, ProviderConfig, ProviderView, Providers,
};
use crate::error::{text_result_view, written_text, SorryError};
use crate::json::{
    is_null, json_document, json_pretty, json_tree, json_trees, member_names, member_of,
    null_value, object3, object_of, object_value, parse_document, pretty_text, text_of,
    text_value, Json,
};
use crate::text::{same_text, texts};
use vstd::prelude::*;

verus! {

/// The name under which a mood is stored.
pub open spec fn mood_key(mood: Mood) -> Seq<char> {
    match mood {
        Mood::Princess => "princess"@,
        Mood::Bro => "bro"@,
        Mood::Bitch => "bitch"@,
    }
}

/// The mood that is stored under a name.
pub open spec fn mood_of_key(key: Seq<char>) -> Option<Mood> {
    if key == "princess"@ {
        Some(Mood::Princess)
    } else if key == "bro"@ {
        Some(Mood::Bro)
    } else if key == "bitch"@ {
        Some(Mood::Bitch)
    } else {
        None
    }
}

/// A text that may be missing, as a document: a string, or null.
pub open spec fn optional_text_tree(text: Option<Seq<char>>) -> Json {
    match text {
        Some(s) => Json::Text(s),
        None => Json::Null,
    }
}

/// A mood that may be unset, as a document: its name, or null.
pub open spec fn mood_tree(mood: Option<Mood>) -> Json {
    match mood {
        Some(m) => Json::Text(mood_key(m)),
        None => Json::Null,
    }
}

/// The names of the members of a stored provider.
pub open spec fn provider_members() -> Seq<Seq<char>> {
    seq!["api_key"@, "base_url"@, "model"@]
}

/// The names of the members of a stored configuration.
pub open spec fn config_members() -> Seq<Seq<char>> {
    seq!["provider"@, "mood"@, "providers"@]
}

/// A provider as a document: an object with its key, its address and its
/// model.
pub open spec fn provider_tree(p: ProviderView) -> Json {
    Json::Object(
        object_of(
            provider_members(),
            seq![Json::Text(p.api_key), Json::Text(p.base_url), Json::Text(p.model)],
        ),
    )
}

/// The providers as the members of an object, each under its name.
pub open spec fn provider_trees(providers: Map<Seq<char>, ProviderView>) -> Map<Seq<char>, Json> {
    Map::new(|k: Seq<char>| providers.contains_key(k), |k: Seq<char>| provider_tree(providers[k]))
}

/// A configuration as a document: an object with the provider in use, the
/// mood in use and the providers.
pub open spec fn config_tree(c: ConfigView) -> Json {
    Json::Object(
        object_of(
            config_members(),
            seq![
                optional_text_tree(c.provider),
                mood_tree(c.mood),
                Json::Object(provider_trees(c.providers)),
            ],
        ),
    )
}

/// The text under a key that may be missing or null. The outer `None`
/// stands for a member that is neither a string nor null.
pub open spec fn optional_text_in(doc: Json, key: Seq<char>) -> Option<Option<Seq<char>>> {
    match doc.member(key) {
        None => Some(None),
        Some(Json::Null) => Some(None),
        Some(Json::Text(s)) => Some(Some(s)),
        Some(_) => None,
    }
}

/// The mood that a document names. The outer `None` stands for a member
/// that names no mood and is not null.
pub open spec fn mood_in(doc: Json) -> Option<Option<Mood>> {
    match optional_text_in(doc, "mood"@) {
        None => None,
        Some(None) => Some(None),
        Some(Some(key)) => match mood_of_key(key) {
            Some(m) => Some(Some(m)),
            None => None,
        },
    }
}

/// The provider that a document describes: an object with a string under
/// each of the three names.
pub open spec fn provider_of(doc: Json) -> Option<ProviderView> {
    match (doc.member("api_key"@), doc.member("base_url"@), doc.member("model"@)) {
        (Some(Json::Text(api_key)), Some(Json::Text(base_url)), Some(Json::Text(model))) => Some(
            ProviderView { api_key, base_url, model },
        ),
        _ => None,
    }
}

/// The providers that a document describes: an object each member of
/// which describes a provider.
pub open spec fn providers_of(doc: Json) -> Option<Map<Seq<char>, ProviderView>> {
    match doc {
        Json::Object(members) => if forall|k: Seq<char>|
            members.contains_key(k) ==> (#[trigger] provider_of(members[k])) is Some {
            Some(
                Map::new(
                    |k: Seq<char>| members.contains_key(k),
                    |k: Seq<char>|
                        match provider_of(members[k]) {
                            Some(p) => p,
                            None => arbitrary(),
                        },
                ),
            )
        } else {
            None
        },
        _ => None,
    }
}

/// The configuration that a document describes, if it describes one: the
/// provider in use and the mood may be missing or null, the providers
/// must be there.
pub open spec fn config_of(doc: Json) -> Option<ConfigView> {
    match (optional_text_in(doc, "provider"@), mood_in(doc), doc.member("providers"@)) {
        (Some(provider), Some(mood), Some(stored)) => match providers_of(stored) {
            Some(providers) => Some(ConfigView { provider, mood, providers }),
            None => None,
        },
        _ => None,
    }
}

/// The configuration that is in force for a stored text: the one that the
/// text describes, or the empty one where it describes none.
pub open spec fn stored_config(parsed: Result<Json, Seq<char>>) -> ConfigView {
    let empty = ConfigView { provider: None, mood: None, providers: Map::empty() };
    match parsed {
        Ok(doc) => match config_of(doc) {
            Some(c) => c,
            None => empty,
        },
        Err(_) => empty,
    }
}

/// The three members of a stored provider are found under their names.
pub proof fn lemma_provider_members(a: Json, b: Json, c: Json)
    ensures
        Json::Object(object_of(provider_members(), seq![a, b, c])).member("api_key"@) == Some(a),
        Json::Object(object_of(provider_members(), seq![a, b, c])).member("base_url"@) == Some(b),
        Json::Object(object_of(provider_members(), seq![a, b, c])).member("model"@) == Some(c),
{
    reveal_strlit("api_key");
    reveal_strlit("base_url");
    reveal_strlit("model");
    let names = provider_members();
    let values = seq![a, b, c];
    assert(names.drop_last() =~= seq!["api_key"@, "base_url"@]);
    assert(values.drop_last() =~= seq![a, b]);
    assert(names.drop_last().drop_last() =~= seq!["api_key"@]);
    assert(values.drop_last().drop_last() =~= seq![a]);
    assert(names.drop_last().drop_last().drop_last() =~= Seq::<Seq<char>>::empty());
    reveal_with_fuel(object_of, 4);
    assert("api_key"@.len() == 7 && "base_url"@.len() == 8 && "model"@.len() == 5);
}

/// The three members of a stored configuration are found under their
/// names.
pub proof fn lemma_config_members(a: Json, b: Json, c: Json)
    ensures
        Json::Object(object_of(config_members(), seq![a, b, c])).member("provider"@) == Some(a),
        Json::Object(object_of(config_members(), seq![a, b, c])).member("mood"@) == Some(b),
        Json::Object(object_of(config_members(), seq![a, b, c])).member("providers"@) == Some(c),
{
    reveal_strlit("provider");
    reveal_strlit("mood");
    reveal_strlit("providers");
    let names = config_members();
    let values = seq![a, b, c];
    assert(names.drop_last() =~= seq!["provider"@, "mood"@]);
    assert(values.drop_last() =~= seq![a, b]);
    assert(names.drop_last().drop_last() =~= seq!["provider"@]);
    assert(values.drop_last().drop_last() =~= seq![a]);
    assert(names.drop_last().drop_last().drop_last() =~= Seq::<Seq<char>>::empty());
    reveal_with_fuel(object_of, 4);
    assert("provider"@.len() == 8 && "mood"@.len() == 4 && "providers"@.len() == 9);
}

/// A mood is stored under a name that stands for that mood alone.
pub proof fn lemma_mood_key(mood: Mood)
    ensures
        mood_of_key(mood_key(mood)) == Some(mood),
{
    reveal_strlit("princess");
    reveal_strlit("bro");
    reveal_strlit("bitch");
    assert("princess"@.len() == 8 && "bro"@.len() == 3 && "bitch"@.len() == 5);
}

/// The document of a provider describes that provider.
pub proof fn provider_survives_storing(p: ProviderView)
    ensures
        provider_of(provider_tree(p)) == Some(p),
{
    lemma_provider_members(Json::Text(p.api_key), Json::Text(p.base_url), Json::Text(p.model));
}

/// The document of a configuration describes that configuration: the
/// provider in use, the mood and every field of every provider are as
/// they were.
pub proof fn config_survives_storing(c: ConfigView)
    ensures
        config_of(config_tree(c)) == Some(c),
{
    let stored = Json::Object(provider_trees(c.providers));
    lemma_config_members(optional_text_tree(c.provider), mood_tree(c.mood), stored);
    match c.mood {
        Some(m) => lemma_mood_key(m),
        None => {},
    }
    let members = provider_trees(c.providers);
    assert forall|k: Seq<char>| members.contains_key(k) implies (#[trigger] provider_of(
        members[k],
    )) == Some(c.providers[k]) by {
        provider_survives_storing(c.providers[k]);
    }
    assert(providers_of(stored) is Some);
    assert(providers_of(stored)->0 =~= c.providers);
}

/// The view of a text that may be missing, or of the sign that it is
/// malformed.
pub open spec fn optional_text_view(r: Option<Option<String>>) -> Option<Option<Seq<char>>> {
    match r {
        Some(Some(s)) => Some(Some(s@)),
        Some(None) => Some(None),
        None => None,
    }
}

/// The view of a provider that may be missing.
pub open spec fn provider_option_view(r: Option<ProviderConfig>) -> Option<ProviderView> {
    match r {
        Some(p) => Some(p@),
        None => None,
    }
}

/// The view of providers that may be missing.
pub open spec fn providers_option_view(r: Option<Providers>) -> Option<
    Map<Seq<char>, ProviderView>,
> {
    match r {
        Some(p) => Some(p@),
        None => None,
    }
}

/// The view of a configuration that may be missing.
pub open spec fn config_option_view(r: Option<Config>) -> Option<ConfigView> {
    match r {
        Some(c) => Some(c@),
        None => None,
    }
}

fn optional_member_text(doc: &serde_json::Value, key: &str) -> (r: Option<Option<String>>)
    ensures
        optional_text_view(r) == optional_text_in(json_tree(*doc), key@),
{
    match member_of(doc, key) {
        None => Some(None),
        Some(m) => match text_of(m) {
            Some(s) => Some(Some(s)),
            None => if is_null(m) {
                Some(None)
            } else {
                None
            },
        },
    }
}

fn mood_from_key(key: &str) -> (r: Option<Mood>)
    ensures
        r == mood_of_key(key@),
{
    if same_text(key, "princess") {
        Some(Mood::Princess)
    } else if same_text(key, "bro") {
        Some(Mood::Bro)
    } else if same_text(key, "bitch") {
        Some(Mood::Bitch)
    } else {
        None
    }
}

fn text_member(doc: &serde_json::Value, key: &str) -> (r: Option<String>)
    ensures
        match r {
            Some(s) => json_tree(*doc).member(key@) == Some(Json::Text(s@)),
            None => match json_tree(*doc).member(key@) {
                Some(Json::Text(_)) => false,
                _ => true,
            },
        },
{
    match member_of(doc, key) {
        Some(m) => text_of(m),
        None => None,
    }
}

/// Reads the provider that a document describes, if it describes one.
pub fn provider_from_value(doc: &serde_json::Value) -> (r: Option<ProviderConfig>)
    ensures
        provider_option_view(r) == provider_of(json_tree(*doc)),
{
    let api_key = match text_member(doc, "api_key") {
        Some(s) => s,
        None => {
            return None;
        },
    };
    let base_url = match text_member(doc, "base_url") {
        Some(s) => s,
        None => {
            return None;
        },
    };
    let model = match text_member(doc, "model") {
        Some(s) => s,
        None => {
            return None;
        },
    };
    Some(ProviderConfig { api_key, base_url, model })
}

/// Reads the providers that a document describes, if it describes any.
pub fn providers_from_value(doc: &serde_json::Value) -> (r: Option<Providers>)
    ensures
        providers_option_view(r) == providers_of(json_tree(*doc)),
{
    let names = match member_names(doc) {
        Some(names) => names,
        None => {
            return None;
        },
    };
    let ghost members = json_tree(*doc)->Object_0;
    let mut out = Providers::new();
    let mut i: usize = 0;
    while i < names.len()
        invariant
            i <= names.len(),
            json_tree(*doc) == Json::Object(members),
            forall|k: Seq<char>| members.contains_key(k) <==> texts(names@).contains(k),
            forall|k: Seq<char>|
                out@.contains_key(k) <==> exists|j: int| 0 <= j < i && #[trigger] names@[j]@ == k,
            forall|k: Seq<char>| #[trigger]
                out@.contains_key(k) ==> provider_of(members[k]) == Some(out@[k]),
        decreases names.len() - i,
    {
        let name = &names[i];
        assert(texts(names@)[i as int] == name@);
        assert(members.contains_key(name@));
        let member = match member_of(doc, name.as_str()) {
            Some(member) => member,
            None => {
                return None;
            },
        };
        let provider = match provider_from_value(member) {
            Some(provider) => provider,
            None => {
                return None;
            },
        };
        let ghost before = out@;
        out = out.insert(name.as_str(), provider);
        proof {
            assert forall|k: Seq<char>| out@.contains_key(k) <==> exists|j: int|
                0 <= j < i + 1 && #[trigger] names@[j]@ == k by {
                if before.contains_key(k) {
                    let j = choose|j: int| 0 <= j < i && #[trigger] names@[j]@ == k;
                    assert(0 <= j < i + 1 && names@[j]@ == k);
                }
                if k == name@ {
                    assert(names@[i as int]@ == k);
                }
                if exists|j: int| 0 <= j < i + 1 && #[trigger] names@[j]@ == k {
                    let j = choose|j: int| 0 <= j < i + 1 && #[trigger] names@[j]@ == k;
                    if j < i {
                        assert(0 <= j < i && names@[j]@ == k);
                    }
                }
            }
        }
        i = i + 1;
    }
    proof {
        assert forall|k: Seq<char>| members.contains_key(k) implies out@.contains_key(k) by {
            let j = choose|j: int| 0 <= j < texts(names@).len() && texts(names@)[j] == k;
            assert(names@[j]@ == k);
        }
        assert forall|k: Seq<char>| out@.contains_key(k) implies members.contains_key(k) by {
            let j = choose|j: int| 0 <= j < i && #[trigger] names@[j]@ == k;
            assert(texts(names@)[j] == k);
        }
        assert(providers_of(json_tree(*doc)) is Some);
        assert(providers_of(json_tree(*doc))->0 =~= out@);
    }
    Some(out)
}

/// Reads the configuration that a document describes, if it describes
/// one.
pub fn config_from_value(doc: &serde_json::Value) -> (r: Option<Config>)
    ensures
        config_option_view(r) == config_of(json_tree(*doc)),
{
    let provider = match optional_member_text(doc, "provider") {
        Some(provider) => provider,
        None => {
            return None;
        },
    };
    let mood = match optional_member_text(doc, "mood") {
        Some(Some(key)) => match mood_from_key(key.as_str()) {
            Some(m) => Some(m),
            None => {
                return None;
            },
        },
        Some(None) => None,
        None => {
            return None;
        },
    };
    let stored = match member_of(doc, "providers") {
        Some(stored) => stored,
        None => {
            return None;
        },
    };
    let providers = match providers_from_value(stored) {
        Some(providers) => providers,
        None => {
            return None;
        },
    };
    Some(Config { provider, mood, providers })
}

/// The configuration that is in force for what a stored text was parsed
/// to.
pub fn config_from_parsed(parsed: Result<serde_json::Value, String>) -> (r: Config)
    ensures
        r@ == stored_config(
            match parsed {
                Ok(doc) => Ok(json_tree(doc)),
                Err(e) => Err(e@),
            },
        ),
{
    match parsed {
        Ok(doc) => match config_from_value(&doc) {
            Some(c) => c,
            None => Config::default(),
        },
        Err(_) => Config::default(),
    }
}

/// Reads a configuration from its stored text. A text that describes no
/// configuration gives the empty one.
pub fn decode_config(text: &str) -> (r: Config)
    ensures
        r@ == stored_config(json_document(text@)),
{
    config_from_parsed(parse_document(text))
}

fn mood_name(mood: Mood) -> (r: &'static str)
    ensures
        r@ == mood_key(mood),
{
    match mood {
        Mood::Princess => "princess",
        Mood::Bro => "bro",
        Mood::Bitch => "bitch",
    }
}

/// The document of a provider.
pub fn provider_to_value(p: &ProviderConfig) -> (r: serde_json::Value)
    ensures
        json_tree(r) == provider_tree(p@),
{
    proof {
        reveal_strlit("api_key");
        reveal_strlit("base_url");
        reveal_strlit("model");
        assert("api_key"@.len() == 7 && "base_url"@.len() == 8 && "model"@.len() == 5);
    }
    object3(
        "api_key",
        text_value(p.api_key.as_str()),
        "base_url",
        text_value(p.base_url.as_str()),
        "model",
        text_value(p.model.as_str()),
    )
}

/// The members that stand for a list of entries are those of the map
/// that the entries stand for.
proof fn lemma_object_of_entries(
    entries: Seq<(Seq<char>, ProviderView)>,
    names: Seq<Seq<char>>,
    trees: Seq<Json>,
)
    requires
        names.len() == entries.len(),
        trees.len() == entries.len(),
        forall|i: int|
            0 <= i < entries.len() ==> names[i] == (#[trigger] entries[i]).0 && trees[i]
                == provider_tree(entries[i].1),
    ensures
        object_of(names, trees) == provider_trees(entries_map(entries)),
    decreases entries.len(),
{
    if entries.len() > 0 {
        let front = entries.drop_last();
        assert forall|i: int| 0 <= i < front.len() implies names.drop_last()[i] == (
        #[trigger] front[i]).0 && trees.drop_last()[i] == provider_tree(front[i].1) by {
            assert(front[i] == entries[i]);
        }
        lemma_object_of_entries(front, names.drop_last(), trees.drop_last());
        assert(entries[entries.len() - 1] == entries.last());
    }
    assert(object_of(names, trees) =~= provider_trees(entries_map(entries)));
}

fn providers_to_value(providers: &Providers) -> (r: serde_json::Value)
    ensures
        json_tree(r) == Json::Object(provider_trees(providers@)),
{
    let entries = providers.to_entries();
    let mut names: Vec<String> = Vec::new();
    let mut values: Vec<serde_json::Value> = Vec::new();
    let mut i: usize = 0;
    while i < entries.len()
        invariant
            i <= entries.len(),
            names.len() == i,
            values.len() == i,
            forall|j: int| 0 <= j < i ==> #[trigger] names@[j]@ == entries@[j].name@,
            forall|j: int|
                0 <= j < i ==> json_tree(#[trigger] values@[j]) == provider_tree(
                    entries@[j].config@,
                ),
        decreases entries.len() - i,
    {
        names.push(entries[i].name.clone());
        values.push(provider_to_value(&entries[i].config));
        i = i + 1;
    }
    proof {
        let views = entry_views(entries@);
        assert forall|a: int, b: int|
            0 <= a < texts(names@).len() && 0 <= b < texts(names@).len() && a != b implies texts(
            names@,
        )[a] != texts(names@)[b] by {
            if a < b {
                assert(views[a].0 != views[b].0);
            } else {
                assert(views[b].0 != views[a].0);
            }
        }
        assert forall|j: int| 0 <= j < views.len() implies texts(names@)[j] == (
        #[trigger] views[j]).0 && json_trees(values@)[j] == provider_tree(views[j].1) by {
            assert(names@[j]@ == entries@[j].name@);
            assert(json_tree(values@[j]) == provider_tree(entries@[j].config@));
        }
        lemma_object_of_entries(views, texts(names@), json_trees(values@));
    }
    object_value(names, values)
}

/// The document of a configuration.
pub fn config_to_value(config: &Config) -> (r: serde_json::Value)
    ensures
        json_tree(r) == config_tree(config@),
{
    let provider = match &config.provider {
        Some(p) => text_value(p.as_str()),
        None => null_value(),
    };
    let mood = match config.mood {
        Some(m) => text_value(mood_name(m)),
        None => null_value(),
    };
    proof {
        reveal_strlit("provider");
        reveal_strlit("mood");
        reveal_strlit("providers");
        assert("provider"@.len() == 8 && "mood"@.len() == 4 && "providers"@.len() == 9);
    }
    object3(
        "provider",
        provider,
        "mood",
        mood,
        "providers",
        providers_to_value(&config.providers),
    )
}

/// Writes a configuration as the text that stores it: its document in
/// pretty form.
pub fn encode_config(config: &Config) -> (r: Result<String, SorryError>)
    ensures
        text_result_view(r) == written_text(json_pretty(config_tree(config@))),
{
    let doc = config_to_value(config);
    match pretty_text(&doc) {
        Ok(text) => Ok(text),
        Err(e) => Err(SorryError::Encode(e)),
    }
}

} // verus!
