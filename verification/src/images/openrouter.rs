//! What is sent to the service that makes images, and what its answers mean.

use vstd::prelude::*;

use crate::error::{AppError, AppResult, ErrorView};
use crate::json;
use crate::json::{Json, JsonView};
use crate::text;

verus! {

/// Where images are asked for.
pub const IMAGES_ENDPOINT: &'static str = "https://openrouter.ai/api/v1/images";

/// The image model where none is chosen.
pub const DEFAULT_IMAGE_MODEL: &'static str = "google/gemini-3.1-flash-image-preview";

/// The type of an image whose answer names none.
pub const DEFAULT_MEDIA_TYPE: &'static str = "image/png";

/// An image that was made.
#[derive(Debug, PartialEq)]
pub struct GeneratedImage {
    pub bytes: Vec<u8>,
    pub media_type: String,
}

/// What a `GeneratedImage` stands for.
#[verifier::ext_equal]
pub struct GeneratedImageView {
    pub bytes: Seq<u8>,
    pub media_type: Seq<char>,
}

impl View for GeneratedImage {
    type V = GeneratedImageView;

    open spec fn view(&self) -> GeneratedImageView {
        GeneratedImageView { bytes: self.bytes@, media_type: self.media_type@ }
    }
}

/// One image of an answer.
#[derive(Debug, PartialEq)]
pub struct ImageData {
    pub b64_json: Option<String>,
    pub media_type: Option<String>,
}

/// What an `ImageData` stands for.
#[verifier::ext_equal]
pub struct ImageDataView {
    pub b64_json: Option<Seq<char>>,
    pub media_type: Option<Seq<char>>,
}

impl View for ImageData {
    type V = ImageDataView;

    open spec fn view(&self) -> ImageDataView {
        ImageDataView { b64_json: self.b64_json.deep_view(), media_type: self.media_type.deep_view() }
    }
}

impl DeepView for ImageData {
    type V = ImageDataView;

    open spec fn deep_view(&self) -> ImageDataView {
        self@
    }
}

/// The answer of the service, by its status, its images and its error.
#[derive(Debug, PartialEq)]
pub struct ImageResponse {
    pub success: bool,
    /// The status as it is written, with its reason.
    pub status: String,
    pub data: Option<Vec<ImageData>>,
    pub error: Option<String>,
}

/// What an `ImageResponse` stands for.
#[verifier::ext_equal]
pub struct ImageResponseView {
    pub success: bool,
    pub status: Seq<char>,
    pub data: Option<Seq<ImageDataView>>,
    pub error: Option<Seq<char>>,
}

impl View for ImageResponse {
    type V = ImageResponseView;

    open spec fn view(&self) -> ImageResponseView {
        ImageResponseView {
            success: self.success,
            status: self.status@,
            data: self.data.deep_view(),
            error: self.error.deep_view(),
        }
    }
}

/// What is sent to ask for an image. No size is sent: the model has its own.
pub fn request_body(model: &str, prompt: &str) -> (r: Json)
    ensures
        r@ == JsonView::Object(seq![("model"@, JsonView::Str(model@)), ("prompt"@, JsonView::Str(prompt@))]),
{
    let body = Json::Object(
        vec![json::pair("model", json::of_text(model)), json::pair("prompt", json::of_text(prompt))],
    );
    assert(body@->Object_0 =~= seq![("model"@, JsonView::Str(model@)), ("prompt"@, JsonView::Str(prompt@))]);
    body
}

/// The bytes behind a text in the standard alphabet with padding, or what is wrong with the
/// text, as `Engine::decode` of `base64::engine::general_purpose::STANDARD` reads it.
pub uninterp spec fn base64_decoded(text: Seq<char>) -> Result<Seq<u8>, Seq<char>>;

/// `Engine::decode` of `base64::engine::general_purpose::STANDARD`: whether a text can be
/// decoded, the bytes that it then gives, and the message otherwise, are a function of the
/// text alone.
#[verifier::external_body]
fn decode_base64(text: &str) -> (r: Result<Vec<u8>, String>)
    ensures
        match base64_decoded(text@) {
            Ok(bytes) => r is Ok && r->Ok_0@ == bytes,
            Err(message) => r is Err && r->Err_0@ == message,
        },
{
    base64::Engine::decode(&base64::engine::general_purpose::STANDARD, text).map_err(|e| e.to_string())
}

/// The text and the type of the image of an answer.
pub open spec fn image_data_of(response: ImageResponseView) -> Result<(Seq<char>, Seq<char>), ErrorView> {
    if !response.success {
        Err(
            ErrorView::Other(
                "image generation failed: "@ + (match response.error {
                    Some(message) => message,
                    None => "HTTP "@ + response.status,
                }),
            ),
        )
    } else if response.data is None || response.data->0.len() == 0 {
        Err(ErrorView::Other("image generation returned no images"@))
    } else {
        let first = response.data->0[0];
        match first.b64_json {
            None => Err(ErrorView::Other("image generation response had no image data"@)),
            Some(b64) => Ok(
                (
                    b64,
                    match first.media_type {
                        Some(media_type) => media_type,
                        None => DEFAULT_MEDIA_TYPE@,
                    },
                ),
            ),
        }
    }
}

/// The text and the type of the image of an answer: the first image counts.
pub fn image_data(response: &ImageResponse) -> (r: AppResult<(String, String)>)
    ensures
        match image_data_of(response@) {
            Ok(data) => r is Ok && r->Ok_0.0@ == data.0 && r->Ok_0.1@ == data.1,
            Err(e) => r is Err && r->Err_0@ == e,
        },
{
    if !response.success {
        let message = match &response.error {
            Some(message) => message.clone(),
            None => text::concat2("HTTP ", response.status.as_str()),
        };
        return Err(AppError::Other(text::concat2("image generation failed: ", message.as_str())));
    }
    let data = match &response.data {
        Some(data) => data,
        None => {
            return Err(AppError::Other("image generation returned no images".to_string()));
        },
    };
    if data.len() == 0 {
        return Err(AppError::Other("image generation returned no images".to_string()));
    }
    let first = &data[0];
    assert(response@.data->0[0] == first@);
    let b64 = match &first.b64_json {
        Some(b64) => b64.clone(),
        None => {
            return Err(AppError::Other("image generation response had no image data".to_string()));
        },
    };
    let media_type = match &first.media_type {
        Some(media_type) => media_type.clone(),
        None => DEFAULT_MEDIA_TYPE.to_string(),
    };
    Ok((b64, media_type))
}

/// What the decoded text of an image comes to.
pub fn decoded_image(decoded: Result<Vec<u8>, String>, media_type: String) -> (r: AppResult<GeneratedImage>)
    ensures
        match decoded {
            Ok(bytes) => r is Ok && r->Ok_0@ == (GeneratedImageView { bytes: bytes@, media_type: media_type@ }),
            Err(message) => r is Err && r->Err_0@ == ErrorView::Other(
                "failed to decode image data: "@ + message@,
            ),
        },
{
    match decoded {
        Ok(bytes) => Ok(GeneratedImage { bytes, media_type }),
        Err(message) => Err(AppError::Other(text::concat2("failed to decode image data: ", message.as_str()))),
    }
}

/// The image of an answer.
pub fn generated_image(response: &ImageResponse) -> (r: AppResult<GeneratedImage>)
    ensures
        match image_data_of(response@) {
            Ok(data) => match base64_decoded(data.0) {
                Ok(bytes) => r is Ok && r->Ok_0@ == (GeneratedImageView { bytes, media_type: data.1 }),
                Err(message) => r is Err && r->Err_0@ == ErrorView::Other(
                    "failed to decode image data: "@ + message,
                ),
            },
            Err(e) => r is Err && r->Err_0@ == e,
        },
{
    match image_data(response) {
        Ok(data) => decoded_image(decode_base64(data.0.as_str()), data.1),
        Err(e) => Err(e),
    }
}

/// With what a file of an image ends.
pub open spec fn extension_of(media_type: Seq<char>) -> Seq<char> {
    if media_type == "image/jpeg"@ {
        "jpg"@
    } else if media_type == "image/webp"@ {
        "webp"@
    } else if media_type == "image/gif"@ {
        "gif"@
    } else if media_type == "image/svg+xml"@ {
        "svg"@
    } else {
        "png"@
    }
}

/// With what a file of an image ends.
pub fn extension_for(media_type: &str) -> (r: &'static str)
    ensures
        r@ == extension_of(media_type@),
{
    if text::same_text(media_type, "image/jpeg") {
        "jpg"
    } else if text::same_text(media_type, "image/webp") {
        "webp"
    } else if text::same_text(media_type, "image/gif") {
        "gif"
    } else if text::same_text(media_type, "image/svg+xml") {
        "svg"
    } else {
        "png"
    }
}

/// The image of a response is the first of those that it brings, of the type that it says, or a PNG
/// where it says none. A response that failed, or that brings no data, gives an error instead.
pub proof fn law_first_image_of_a_response_is_taken(response: ImageResponseView)
    ensures
        image_data_of(response) is Ok <==> response.success && response.data is Some && response.data->0.len() > 0
            && response.data->0[0].b64_json is Some,
        image_data_of(response) matches Ok(found) ==> {
            &&& response.data->0[0].b64_json == Some(found.0)
            &&& response.data->0[0].media_type is Some ==> response.data->0[0].media_type == Some(found.1)
            &&& response.data->0[0].media_type is None ==> found.1 == "image/png"@
        },
        !response.success && response.error is Some ==> image_data_of(response) == Err::<(Seq<char>, Seq<char>), ErrorView>(
            ErrorView::Other("image generation failed: "@ + response.error->0),
        ),
{
}

/// Each type of image that is known has a file extension of its own, and any other has that of a PNG.
pub proof fn law_extension_tells_the_type(media_type: Seq<char>)
    ensures
        extension_of("image/jpeg"@) == "jpg"@,
        extension_of("image/webp"@) == "webp"@,
        extension_of("image/gif"@) == "gif"@,
        extension_of("image/svg+xml"@) == "svg"@,
        extension_of("image/png"@) == "png"@,
        media_type != "image/jpeg"@ && media_type != "image/webp"@ && media_type != "image/gif"@ && media_type
            != "image/svg+xml"@ ==> extension_of(media_type) == "png"@,
{
    reveal_strlit("image/jpeg");
    reveal_strlit("image/webp");
    reveal_strlit("image/gif");
    reveal_strlit("image/svg+xml");
    reveal_strlit("image/png");
    assert("image/jpeg"@.len() == 10 && "image/jpeg"@[6] == 'j');
    assert("image/webp"@.len() == 10 && "image/webp"@[6] == 'w');
    assert("image/gif"@.len() == 9 && "image/gif"@[6] == 'g');
    assert("image/svg+xml"@.len() == 13);
    assert("image/png"@.len() == 9 && "image/png"@[6] == 'p');
}

} // verus!
