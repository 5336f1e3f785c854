//! The models that a player chooses, and the keys for them.

use vstd::prelude::*;

use crate::error::{AppError, AppResult, ErrorView};
use crate::images::openrouter;
use crate::json;
use crate::json::{Json, JsonView};
use crate::{rows, text};

verus! {

/// Under which name the choice of a text model is kept.
pub const SETTINGS_KEY_TEXT_MODEL: &'static str = "text_model_default";

/// Under which name the choice of an image model is kept.
pub const SETTINGS_KEY_IMAGE_MODEL: &'static str = "image_model_default";

/// The provider where none is chosen.
pub const DEFAULT_PROVIDER: &'static str = "openrouter";

/// The style of images where none is chosen.
pub const DEFAULT_IMAGE_STYLE: &'static str = "Digital painting, atmospheric scene illustration.";

/// What is kept of the player's choices: texts and secrets, each under a name.
#[derive(Debug, PartialEq)]
pub struct Preferences {
    pub settings: Vec<(String, String)>,
    pub secrets: Vec<(String, Json)>,
}

/// What `Preferences` stand for.
#[verifier::ext_equal]
pub struct PreferencesView {
    pub settings: Seq<(Seq<char>, Seq<char>)>,
    pub secrets: Seq<(Seq<char>, JsonView)>,
}

impl View for Preferences {
    type V = PreferencesView;

    open spec fn view(&self) -> PreferencesView {
        PreferencesView { settings: self.settings.deep_view(), secrets: self.secrets.deep_view() }
    }
}

/// The text model that a player chose.
#[derive(Debug, PartialEq)]
pub struct TextModelSettings {
    pub provider: String,
    pub model: String,
    pub has_api_key: bool,
}

/// What `TextModelSettings` stand for.
#[verifier::ext_equal]
pub struct TextModelView {
    pub provider: Seq<char>,
    pub model: Seq<char>,
    pub has_api_key: bool,
}

impl View for TextModelSettings {
    type V = TextModelView;

    open spec fn view(&self) -> TextModelView {
        TextModelView { provider: self.provider@, model: self.model@, has_api_key: self.has_api_key }
    }
}

/// The image model that a player chose.
#[derive(Debug, PartialEq)]
pub struct ImageModelSettings {
    pub model: String,
    pub enabled: bool,
    /// What every prompt starts with.
    pub style: String,
    /// How large images are. The model decides where it is empty.
    pub resolution: String,
    pub has_api_key: bool,
}

/// What `ImageModelSettings` stand for.
#[verifier::ext_equal]
pub struct ImageModelView {
    pub model: Seq<char>,
    pub enabled: bool,
    pub style: Seq<char>,
    pub resolution: Seq<char>,
    pub has_api_key: bool,
}

impl View for ImageModelSettings {
    type V = ImageModelView;

    open spec fn view(&self) -> ImageModelView {
        ImageModelView {
            model: self.model@,
            enabled: self.enabled,
            style: self.style@,
            resolution: self.resolution@,
            has_api_key: self.has_api_key,
        }
    }
}

/// The condition of a text being kept under a name.
pub open spec fn setting_is(name: Seq<char>) -> spec_fn((Seq<char>, Seq<char>)) -> bool {
    |row: (Seq<char>, Seq<char>)| row.0 == name
}

/// The condition of a secret being kept under a name.
pub open spec fn secret_is(name: Seq<char>) -> spec_fn((Seq<char>, JsonView)) -> bool {
    |row: (Seq<char>, JsonView)| row.0 == name
}

/// The condition of a secret being kept under another name.
pub open spec fn secret_is_not(name: Seq<char>) -> spec_fn((Seq<char>, JsonView)) -> bool {
    |row: (Seq<char>, JsonView)| row.0 != name
}

/// Under which name the key for a provider is kept.
pub open spec fn key_name(provider: Seq<char>) -> Seq<char> {
    "text_model."@ + provider + ".api_key"@
}

/// Under which name the key for a provider is kept.
pub fn api_key_store_key(provider: &str) -> (r: String)
    ensures
        r@ == key_name(provider@),
{
    text::concat3("text_model.", provider, ".api_key")
}

/// The tree that is kept under a name, if the text under it is one.
pub open spec fn setting_tree(p: PreferencesView, name: Seq<char>) -> Option<JsonView> {
    match rows::first_where(p.settings, setting_is(name)) {
        Some(row) => json::parsed(row.1),
        None => None,
    }
}

/// Whether a secret is kept for a provider.
pub open spec fn has_key(p: PreferencesView, provider: Seq<char>) -> bool {
    rows::first_where(p.secrets, secret_is(key_name(provider))) is Some
}

/// A text in a tree, or what stands in for it.
pub open spec fn text_or(tree: Option<JsonView>, name: Seq<char>, otherwise: Seq<char>) -> Seq<char> {
    match tree {
        Some(v) => match json::text_field(v, name) {
            Some(s) => s,
            None => otherwise,
        },
        None => otherwise,
    }
}

/// The text model that is chosen.
pub open spec fn text_model(p: PreferencesView) -> TextModelView {
    let tree = setting_tree(p, SETTINGS_KEY_TEXT_MODEL@);
    let provider = text_or(tree, "provider"@, DEFAULT_PROVIDER@);
    TextModelView { provider, model: text_or(tree, "model"@, ""@), has_api_key: has_key(p, provider) }
}

/// The image model that is chosen.
pub open spec fn image_model(p: PreferencesView) -> ImageModelView {
    let tree = setting_tree(p, SETTINGS_KEY_IMAGE_MODEL@);
    ImageModelView {
        model: text_or(tree, "model"@, openrouter::DEFAULT_IMAGE_MODEL@),
        enabled: match tree {
            Some(v) => match json::bool_field(v, "enabled"@) {
                Some(b) => b,
                None => true,
            },
            None => true,
        },
        style: text_or(tree, "style"@, DEFAULT_IMAGE_STYLE@),
        resolution: text_or(tree, "resolution"@, ""@),
        has_api_key: has_key(p, DEFAULT_PROVIDER@),
    }
}

fn read_text(tree: &Option<Json>, name: &str, otherwise: &str) -> (r: String)
    ensures
        r@ == text_or(tree.deep_view(), name@, otherwise@),
{
    match tree {
        Some(v) => match v.str_field(name) {
            Some(s) => s.to_string(),
            None => otherwise.to_string(),
        },
        None => otherwise.to_string(),
    }
}

fn secret_position(secrets: &Vec<(String, Json)>, name: &str) -> (r: Option<usize>)
    ensures
        match r {
            Some(i) => {
                &&& i < secrets@.len()
                &&& rows::first_where(secrets.deep_view(), secret_is(name@)) == Some(
                    (secrets@[i as int].0@, secrets@[i as int].1@),
                )
                &&& secret_is(name@)(secrets.deep_view()[i as int])
                &&& forall|k: int| 0 <= k < i ==> !secret_is(name@)(#[trigger] secrets.deep_view()[k])
            },
            None => {
                &&& rows::first_where(secrets.deep_view(), secret_is(name@)) is None
                &&& forall|k: int|
                    0 <= k < secrets@.len() ==> !secret_is(name@)(#[trigger] secrets.deep_view()[k])
            },
        },
{
    let ghost p = secret_is(name@);
    let meant = |row: &(String, Json)| -> (b: bool)
        ensures
            b == p(row.deep_view()),
    {
        text::same_text(row.0.as_str(), name)
    };
    rows::position(secrets, meant, Ghost(p))
}

fn setting_position(settings: &Vec<(String, String)>, name: &str) -> (r: Option<usize>)
    ensures
        match r {
            Some(i) => {
                &&& i < settings@.len()
                &&& rows::first_where(settings.deep_view(), setting_is(name@)) == Some(
                    (settings@[i as int].0@, settings@[i as int].1@),
                )
                &&& setting_is(name@)(settings.deep_view()[i as int])
                &&& forall|k: int| 0 <= k < i ==> !setting_is(name@)(#[trigger] settings.deep_view()[k])
            },
            None => {
                &&& rows::first_where(settings.deep_view(), setting_is(name@)) is None
                &&& forall|k: int|
                    0 <= k < settings@.len() ==> !setting_is(name@)(#[trigger] settings.deep_view()[k])
            },
        },
{
    let ghost p = setting_is(name@);
    let meant = |row: &(String, String)| -> (b: bool)
        ensures
            b == p(row.deep_view()),
    {
        text::same_text(row.0.as_str(), name)
    };
    rows::position(settings, meant, Ghost(p))
}

impl Preferences {
    /// Nothing is chosen.
    pub fn new() -> (r: Preferences)
        ensures
            r@.settings.len() == 0,
            r@.secrets.len() == 0,
    {
        Preferences { settings: Vec::new(), secrets: Vec::new() }
    }

    fn tree(&self, name: &str) -> (r: Option<Json>)
        ensures
            r.deep_view() == setting_tree(self@, name@),
    {
        match setting_position(&self.settings, name) {
            Some(i) => json::parse(self.settings[i].1.as_str()),
            None => None,
        }
    }

    fn keep_setting(&mut self, name: &str, value: String)
        ensures
            final(self)@ == (PreferencesView {
                settings: rows::upserted(old(self)@.settings, setting_is(name@), (name@, value@)),
                ..old(self)@
            }),
    {
        let ghost p = setting_is(name@);
        let ghost before = self.settings;
        let row = (name.to_string(), value);
        let ghost kept = row;
        match setting_position(&self.settings, name) {
            Some(i) => {
                self.settings[i] = row;
                proof {
                    rows::lemma_deep_update(before, self.settings, i as int, kept);
                    rows::lemma_upserted_hit(before.deep_view(), p, (name@, value@), i as int);
                }
            },
            None => {
                self.settings.push(row);
                proof {
                    rows::lemma_deep_push(before, self.settings, kept);
                    rows::lemma_upserted_miss(before.deep_view(), p, (name@, value@));
                }
            },
        }
    }

    fn keep_secret(&mut self, name: &str, value: Json)
        ensures
            final(self)@ == (PreferencesView {
                secrets: rows::upserted(old(self)@.secrets, secret_is(name@), (name@, value@)),
                ..old(self)@
            }),
    {
        let ghost p = secret_is(name@);
        let ghost before = self.secrets;
        let row = (name.to_string(), value);
        let ghost kept = row;
        match secret_position(&self.secrets, name) {
            Some(i) => {
                self.secrets[i] = row;
                proof {
                    rows::lemma_deep_update(before, self.secrets, i as int, kept);
                    rows::lemma_upserted_hit(before.deep_view(), p, (name@, value@), i as int);
                }
            },
            None => {
                self.secrets.push(row);
                proof {
                    rows::lemma_deep_push(before, self.secrets, kept);
                    rows::lemma_upserted_miss(before.deep_view(), p, (name@, value@));
                }
            },
        }
    }

    fn drop_secret(&mut self, name: &str)
        ensures
            final(self)@ == (PreferencesView {
                secrets: old(self)@.secrets.filter(secret_is_not(name@)),
                ..old(self)@
            }),
    {
        let ghost p = secret_is_not(name@);
        let ghost f = |row: (Seq<char>, JsonView)| row;
        let keep = |row: &(String, Json)| -> (b: bool)
            ensures
                b == p((row.0@, row.1@)),
        {
            !text::same_text(row.0.as_str(), name)
        };
        let read = |row: &(String, Json)| -> (copy: (String, Json))
            ensures
                copy.deep_view() == row.deep_view(),
        {
            (row.0.clone(), row.1.copy())
        };
        let left = rows::read_rows(&self.secrets, keep, read, Ghost(p), Ghost(f));
        proof {
            let kept = self.secrets.deep_view().filter(p);
            assert(kept.map_values(f) =~= kept);
        }
        self.secrets = left;
    }

    /// The text model that is chosen.
    pub fn read_text_model_settings(&self) -> (r: TextModelSettings)
        ensures
            r@ == text_model(self@),
    {
        let tree = self.tree(SETTINGS_KEY_TEXT_MODEL);
        let provider = read_text(&tree, "provider", DEFAULT_PROVIDER);
        let model = read_text(&tree, "model", "");
        let name = api_key_store_key(provider.as_str());
        let has_api_key = secret_position(&self.secrets, name.as_str()).is_some();
        TextModelSettings { provider, model, has_api_key }
    }

    /// Chooses a text model. With a key, the key for its provider is kept; with an empty one,
    /// that for its provider is forgotten.
    pub fn save_text_model_settings(&mut self, provider: &str, model: &str, api_key: Option<&str>)
        ensures
            final(self)@ == text_model_saved(old(self)@, provider@, model@, api_key.deep_view()),
            json::parsed(json::printed(text_model_tree(provider@, model@))) == Some(
                text_model_tree(provider@, model@),
            ),
    {
        let tree = Json::Object(
            vec![
                json::pair("model", json::of_text(model)),
                json::pair("provider", json::of_text(provider)),
            ],
        );
        proof {
            assert(tree@->Object_0 =~= text_model_tree(provider@, model@)->Object_0);
            lemma_text_model_storable(provider@, model@);
        }
        let value = json::print(&tree);
        self.keep_setting(SETTINGS_KEY_TEXT_MODEL, value);
        if let Some(key) = api_key {
            let name = api_key_store_key(provider);
            if key.is_empty() {
                self.drop_secret(name.as_str());
            } else {
                self.keep_secret(name.as_str(), json::of_text(key));
            }
        }
    }

    /// The image model that is chosen.
    pub fn get_image_model_settings(&self) -> (r: ImageModelSettings)
        ensures
            r@ == image_model(self@),
    {
        let tree = self.tree(SETTINGS_KEY_IMAGE_MODEL);
        let model = read_text(&tree, "model", openrouter::DEFAULT_IMAGE_MODEL);
        let enabled = match &tree {
            Some(v) => match v.bool_field("enabled") {
                Some(b) => b,
                None => true,
            },
            None => true,
        };
        let style = read_text(&tree, "style", DEFAULT_IMAGE_STYLE);
        let resolution = read_text(&tree, "resolution", "");
        let name = api_key_store_key(DEFAULT_PROVIDER);
        let has_api_key = secret_position(&self.secrets, name.as_str()).is_some();
        ImageModelSettings { model, enabled, style, resolution, has_api_key }
    }

    /// Chooses an image model. A blank style stands for the one that is used where none is
    /// chosen.
    pub fn save_image_model_settings(&mut self, model: &str, enabled: bool, style: &str, resolution: &str)
        ensures
            final(self)@ == image_model_saved(old(self)@, model@, enabled, style@, resolution@),
            json::parsed(json::printed(image_model_tree(model@, enabled, style@, resolution@))) == Some(
                image_model_tree(model@, enabled, style@, resolution@),
            ),
    {
        let trimmed = text::trim(style);
        let style_text = if trimmed.as_str().is_empty() {
            DEFAULT_IMAGE_STYLE.to_string()
        } else {
            trimmed
        };
        let resolution_text = text::trim(resolution);
        let tree = Json::Object(
            vec![
                json::pair("enabled", json::of_bool(enabled)),
                json::pair("model", json::of_text(model)),
                json::pair("resolution", json::of_text(resolution_text.as_str())),
                json::pair("style", json::of_text(style_text.as_str())),
            ],
        );
        proof {
            assert(tree@->Object_0 =~= image_model_tree(model@, enabled, style@, resolution@)->Object_0);
            lemma_image_model_storable(model@, enabled, style@, resolution@);
        }
        let value = json::print(&tree);
        self.keep_setting(SETTINGS_KEY_IMAGE_MODEL, value);
    }

    /// The key that is kept for a provider.
    pub fn read_api_key(&self, provider: &str) -> (r: AppResult<String>)
        ensures
            match api_key_of(self@, provider@) {
                Some(key) => r is Ok && r->Ok_0@ == key,
                None => r is Err && r->Err_0@ == ErrorView::Invalid(
                    "no API key set for provider '"@ + provider@ + "'"@,
                ),
            },
    {
        let name = api_key_store_key(provider);
        if let Some(i) = secret_position(&self.secrets, name.as_str()) {
            if let Some(key) = self.secrets[i].1.as_str() {
                return Ok(key.to_string());
            }
        }
        Err(AppError::Invalid(text::concat3("no API key set for provider '", provider, "'")))
    }
}

/// The key that is kept for a provider.
pub open spec fn api_key_of(p: PreferencesView, provider: Seq<char>) -> Option<Seq<char>> {
    match rows::first_where(p.secrets, secret_is(key_name(provider))) {
        Some(row) => json::text_of(row.1),
        None => None,
    }
}

/// What the choice of a text model is kept as.
pub open spec fn text_model_tree(provider: Seq<char>, model: Seq<char>) -> JsonView {
    JsonView::Object(seq![("model"@, JsonView::Str(model)), ("provider"@, JsonView::Str(provider))])
}

/// What the choice of an image model is kept as.
pub open spec fn image_model_tree(model: Seq<char>, enabled: bool, style: Seq<char>, resolution: Seq<char>) -> JsonView {
    JsonView::Object(
        seq![
            ("enabled"@, JsonView::Bool(enabled)),
            ("model"@, JsonView::Str(model)),
            ("resolution"@, JsonView::Str(text::trimmed(resolution))),
            (
                "style"@,
                JsonView::Str(
                    if text::blank(style) {
                        DEFAULT_IMAGE_STYLE@
                    } else {
                        text::trimmed(style)
                    },
                ),
            ),
        ],
    )
}

/// The choices after a text model was chosen.
pub open spec fn text_model_saved(
    p: PreferencesView,
    provider: Seq<char>,
    model: Seq<char>,
    api_key: Option<Seq<char>>,
) -> PreferencesView {
    PreferencesView {
        settings: rows::upserted(
            p.settings,
            setting_is(SETTINGS_KEY_TEXT_MODEL@),
            (SETTINGS_KEY_TEXT_MODEL@, json::printed(text_model_tree(provider, model))),
        ),
        secrets: match api_key {
            None => p.secrets,
            Some(key) => if key.len() == 0 {
                p.secrets.filter(secret_is_not(key_name(provider)))
            } else {
                rows::upserted(
                    p.secrets,
                    secret_is(key_name(provider)),
                    (key_name(provider), JsonView::Str(key)),
                )
            },
        },
    }
}

/// The choices after an image model was chosen.
pub open spec fn image_model_saved(
    p: PreferencesView,
    model: Seq<char>,
    enabled: bool,
    style: Seq<char>,
    resolution: Seq<char>,
) -> PreferencesView {
    PreferencesView {
        settings: rows::upserted(
            p.settings,
            setting_is(SETTINGS_KEY_IMAGE_MODEL@),
            (SETTINGS_KEY_IMAGE_MODEL@, json::printed(image_model_tree(model, enabled, style, resolution))),
        ),
        ..p
    }
}

proof fn lemma_text_model_storable(provider: Seq<char>, model: Seq<char>)
    ensures
        json::storable(text_model_tree(provider, model), json::DEPTH_LIMIT as nat),
{
    reveal_with_fuel(json::storable, 2);
    reveal_with_fuel(text::precedes, 2);
    reveal_strlit("model");
    reveal_strlit("provider");
}

proof fn lemma_image_model_storable(model: Seq<char>, enabled: bool, style: Seq<char>, resolution: Seq<char>)
    ensures
        json::storable(image_model_tree(model, enabled, style, resolution), json::DEPTH_LIMIT as nat),
{
    reveal_with_fuel(json::storable, 2);
    reveal_with_fuel(text::precedes, 2);
    reveal_strlit("enabled");
    reveal_strlit("model");
    reveal_strlit("resolution");
    reveal_strlit("style");
}

/// The text model that was chosen last is the one that is read, and its key is there where one
/// came with the choice.
pub proof fn law_text_model_reads_back(p: PreferencesView, provider: Seq<char>, model: Seq<char>, api_key: Option<Seq<char>>)
    requires
        json::parsed(json::printed(text_model_tree(provider, model))) == Some(text_model_tree(provider, model)),
    ensures
        ({
            let after = text_model_saved(p, provider, model, api_key);
            &&& text_model(after).provider == provider
            &&& text_model(after).model == model
            &&& api_key_of(after, provider) == (match api_key {
                None => api_key_of(p, provider),
                Some(key) => if key.len() == 0 {
                    None
                } else {
                    Some(key)
                },
            })
        }),
{
    let after = text_model_saved(p, provider, model, api_key);
    rows::lemma_first_where_upserted(
        p.settings,
        setting_is(SETTINGS_KEY_TEXT_MODEL@),
        (SETTINGS_KEY_TEXT_MODEL@, json::printed(text_model_tree(provider, model))),
    );
    let tree = text_model_tree(provider, model);
    reveal_strlit("model");
    reveal_strlit("provider");
    assert("model"@.len() != "provider"@.len());
    json::lemma_field_at(tree->Object_0, 0);
    json::lemma_field_at(tree->Object_0, 1);
    if let Some(key) = api_key {
        if key.len() == 0 {
            let q = secret_is(key_name(provider));
            let left = p.secrets.filter(secret_is_not(key_name(provider)));
            assert forall|k: int| 0 <= k < left.len() implies !q(#[trigger] left[k]) by {
                assert(left.contains(left[k]));
                rows::lemma_filter_member(p.secrets, secret_is_not(key_name(provider)), left[k]);
            }
            rows::lemma_first_where_miss(left, q);
        } else {
            rows::lemma_first_where_upserted(
                p.secrets,
                secret_is(key_name(provider)),
                (key_name(provider), JsonView::Str(key)),
            );
        }
    }
}

/// The image model that was chosen last is the one that is read.
pub proof fn law_image_model_reads_back(
    p: PreferencesView,
    model: Seq<char>,
    enabled: bool,
    style: Seq<char>,
    resolution: Seq<char>,
)
    requires
        json::parsed(json::printed(image_model_tree(model, enabled, style, resolution))) == Some(
            image_model_tree(model, enabled, style, resolution),
        ),
    ensures
        image_model(image_model_saved(p, model, enabled, style, resolution)) == (ImageModelView {
            model,
            enabled,
            style: if text::blank(style) {
                DEFAULT_IMAGE_STYLE@
            } else {
                text::trimmed(style)
            },
            resolution: text::trimmed(resolution),
            has_api_key: has_key(p, DEFAULT_PROVIDER@),
        }),
{
    let tree = image_model_tree(model, enabled, style, resolution);
    rows::lemma_first_where_upserted(
        p.settings,
        setting_is(SETTINGS_KEY_IMAGE_MODEL@),
        (SETTINGS_KEY_IMAGE_MODEL@, json::printed(tree)),
    );
    reveal_strlit("enabled");
    reveal_strlit("model");
    reveal_strlit("resolution");
    reveal_strlit("style");
    assert("model"@[0] != "style"@[0]);
    assert("enabled"@.len() == 7 && "model"@.len() == 5 && "resolution"@.len() == 10 && "style"@.len() == 5);
    json::lemma_field_at(tree->Object_0, 0);
    json::lemma_field_at(tree->Object_0, 1);
    json::lemma_field_at(tree->Object_0, 2);
    json::lemma_field_at(tree->Object_0, 3);
}

/// Choosing a text model leaves every other setting and the keys of other providers as they are, and
/// choosing an image model leaves every other setting and every key.
pub proof fn law_choice_leaves_the_rest(
    p: PreferencesView,
    provider: Seq<char>,
    model: Seq<char>,
    api_key: Option<Seq<char>>,
    enabled: bool,
    style: Seq<char>,
    resolution: Seq<char>,
    other_setting: Seq<char>,
    other_provider: Seq<char>,
)
    requires
        other_provider != provider,
    ensures
        ({
            let text_chosen = text_model_saved(p, provider, model, api_key);
            let image_chosen = image_model_saved(p, model, enabled, style, resolution);
            &&& other_setting != "text_model_default"@ ==> setting_tree(text_chosen, other_setting) == setting_tree(
                p,
                other_setting,
            )
            &&& api_key_of(text_chosen, other_provider) == api_key_of(p, other_provider)
            &&& api_key is None ==> text_chosen.secrets == p.secrets
            &&& other_setting != "image_model_default"@ ==> setting_tree(image_chosen, other_setting) == setting_tree(
                p,
                other_setting,
            )
            &&& image_chosen.secrets == p.secrets
        }),
{
    let a = key_name(provider);
    let b = key_name(other_provider);
    assert(a != b) by {
        let head = "text_model."@;
        let tail = ".api_key"@;
        assert((head + provider).subrange(head.len() as int, (head.len() + provider.len()) as int) =~= provider);
        assert((head + other_provider).subrange(head.len() as int, (head.len() + other_provider.len()) as int)
            =~= other_provider);
        if a == b {
            assert(a.len() == head.len() + provider.len() + tail.len());
            assert(b.len() == head.len() + other_provider.len() + tail.len());
            assert forall|i: int| 0 <= i < provider.len() implies provider[i] == other_provider[i] by {
                assert(a[head.len() + i] == provider[i]);
                assert(b[head.len() + i] == other_provider[i]);
            }
            assert(provider =~= other_provider);
        }
    }
    if other_setting != "text_model_default"@ {
        rows::lemma_first_where_upserted_elsewhere(
            p.settings,
            setting_is(SETTINGS_KEY_TEXT_MODEL@),
            (SETTINGS_KEY_TEXT_MODEL@, json::printed(text_model_tree(provider, model))),
            setting_is(other_setting),
        );
    }
    if other_setting != "image_model_default"@ {
        rows::lemma_first_where_upserted_elsewhere(
            p.settings,
            setting_is(SETTINGS_KEY_IMAGE_MODEL@),
            (SETTINGS_KEY_IMAGE_MODEL@, json::printed(image_model_tree(model, enabled, style, resolution))),
            setting_is(other_setting),
        );
    }
    if let Some(key) = api_key {
        if key.len() == 0 {
            rows::lemma_first_where_kept(p.secrets, secret_is_not(a), secret_is(b));
        } else {
            rows::lemma_first_where_upserted_elsewhere(p.secrets, secret_is(a), (a, JsonView::Str(key)), secret_is(b));
        }
    }
}

/// Where nothing was chosen, there is no text model, the provider is the one that is supported, and
/// images are switched on.
pub proof fn law_nothing_chosen_is_the_default(p: PreferencesView)
    requires
        p.settings.len() == 0,
    ensures
        text_model(p).provider == "openrouter"@,
        text_model(p).model.len() == 0,
        image_model(p).enabled,
        image_model(p).resolution.len() == 0,
{
    reveal_strlit("");
}

} // verus!
