use dungeon::error::AppError;
use dungeon::images::openrouter;
use dungeon::json::Json;
use dungeon::settings;
use dungeon::settings::Preferences;

#[test]
fn nothing_saved_reads_as_the_defaults() {
    let preferences = Preferences::new();
    let text = preferences.read_text_model_settings();
    assert_eq!((text.provider.as_str(), text.model.as_str(), text.has_api_key), ("openrouter", "", false));
    let image = preferences.get_image_model_settings();
    assert_eq!(image.model, openrouter::DEFAULT_IMAGE_MODEL);
    assert_eq!(image.style, settings::DEFAULT_IMAGE_STYLE);
    assert!(!image.has_api_key);
    assert_eq!(settings::api_key_store_key("openrouter"), "text_model.openrouter.api_key");
}

#[test]
fn a_text_model_reads_back_as_it_was_saved() {
    let mut preferences = Preferences::new();
    preferences.save_text_model_settings("openrouter", "writer \"one\"", Some("key"));
    let saved = preferences.read_text_model_settings();
    assert_eq!((saved.provider.as_str(), saved.model.as_str(), saved.has_api_key), ("openrouter", "writer \"one\"", true));
    assert_eq!(preferences.read_api_key("openrouter").unwrap(), "key");
    preferences.save_text_model_settings("openrouter", "other", None);
    assert_eq!(preferences.read_text_model_settings().model, "other");
    assert_eq!(preferences.read_api_key("openrouter").unwrap(), "key");
    assert_eq!(
        preferences.read_api_key("elsewhere").unwrap_err(),
        AppError::Invalid("no API key set for provider 'elsewhere'".to_string())
    );
}

#[test]
fn an_image_model_reads_back_as_it_was_saved() {
    let mut preferences = Preferences::new();
    preferences.save_image_model_settings("painter", true, "  Ink wash.  ", "1K");
    let saved = preferences.get_image_model_settings();
    assert_eq!((saved.model.as_str(), saved.enabled, saved.style.as_str()), ("painter", true, "Ink wash."));
    preferences.save_image_model_settings("painter", false, "   ", "1K");
    let blank = preferences.get_image_model_settings();
    assert_eq!((blank.enabled, blank.style.as_str()), (false, settings::DEFAULT_IMAGE_STYLE));
}

#[test]
fn a_key_that_is_no_text_is_no_key() {
    let mut preferences = Preferences::new();
    preferences.secrets.push(("text_model.openrouter.api_key".to_string(), Json::Null));
    assert!(preferences.read_api_key("openrouter").is_err());
}
