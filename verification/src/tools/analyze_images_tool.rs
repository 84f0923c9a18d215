//! Asking a model about images.

use vstd::prelude::*;
use vstd::utf8::*;

use crate::json;
use crate::json::Json;
use crate::message;
use crate::message::MessageContent;
use crate::message::MessageImage;
use crate::message::RequestMessage;
use crate::message::Role;
use crate::paths;
use crate::text;
use crate::tools::ToolKind;

verus! {

/// How an analysis is shown.
#[derive(Debug, Clone, Copy, PartialEq, Eq, Structural)]
pub enum OutputFormat {
    Text,
    Markdown,
    Json,
}

impl Default for OutputFormat {
    fn default() -> (r: OutputFormat)
        ensures
            r == OutputFormat::Markdown,
    {
        OutputFormat::Markdown
    }
}

/// The format of an image.
#[derive(Debug, Clone, Copy, PartialEq, Eq, Structural)]
pub enum ImageFormat {
    Png,
    Jpeg,
    Webp,
    Gif,
    Svg,
    Bmp,
    Tiff,
}

/// What is asked about which images. Where there is a schema, the format does not count.
#[derive(Debug)]
pub struct AnalyzeImagesInput {
    pub prompt: String,
    pub image_paths: Vec<String>,
    pub output_format: OutputFormat,
    pub output_schema: Option<Json>,
    pub show_thumbnails: bool,
}

/// Images are shown unless the input says otherwise.
pub fn default_show_thumbnails() -> (r: bool)
    ensures
        r,
{
    true
}

// ---------------------------------------------------------------------------
// Finding an image
// ---------------------------------------------------------------------------

/// Where an image is.
#[derive(Debug)]
pub enum ImagePlace {
    Url(String),
    File(String),
}

/// Why an image could not be loaded.
#[derive(Debug)]
pub enum ImageError {
    NoHome,
    NoCurrentDirectory,
    NotFetched(String),
    Status { status: String, path: String },
    BytesNotRead(String),
    NotFound { path: String, resolved: String },
    NotAFile(String),
    Unsupported(String),
    FileNotRead(String),
}

/// An image error in words.
pub open spec fn image_error_text(e: ImageError) -> Seq<char> {
    match e {
        ImageError::NoHome => "Could not determine home directory"@,
        ImageError::NoCurrentDirectory => "Could not get current directory"@,
        ImageError::NotFetched(path) => "Failed to fetch image from URL: "@ + path@,
        ImageError::Status { status, path } => "URL returned status "@ + status@ + ": "@ + path@
            + ". Please check that the URL is correct and accessible."@,
        ImageError::BytesNotRead(path) => "Failed to read image bytes from URL: "@ + path@,
        ImageError::NotFound { path, resolved } => "Image file not found: "@ + path@
            + ".\nResolved to: "@ + resolved@
            + "\nPlease check that the file exists and the path is correct."@,
        ImageError::NotAFile(path) => "Path is not a file: "@ + path@
            + ". Please provide a path to an image file."@,
        ImageError::Unsupported(path) => "Unsupported image format at "@ + path@
            + ". Supported formats: JPEG, PNG, GIF, WebP, SVG, BMP, TIFF"@,
        ImageError::FileNotRead(path) => "Failed to read image file: "@ + path@,
    }
}

impl ImageError {
    /// The error in words.
    pub fn message(&self) -> (r: String)
        ensures
            r@ == image_error_text(*self),
    {
        match self {
            ImageError::NoHome => "Could not determine home directory".to_owned(),
            ImageError::NoCurrentDirectory => "Could not get current directory".to_owned(),
            ImageError::NotFetched(path) => {
                let mut out = "Failed to fetch image from URL: ".to_owned();
                out.append(path.as_str());
                out
            },
            ImageError::Status { status, path } => {
                let mut out = "URL returned status ".to_owned();
                out.append(status.as_str());
                out.append(": ");
                out.append(path.as_str());
                out.append(". Please check that the URL is correct and accessible.");
                out
            },
            ImageError::BytesNotRead(path) => {
                let mut out = "Failed to read image bytes from URL: ".to_owned();
                out.append(path.as_str());
                out
            },
            ImageError::NotFound { path, resolved } => {
                let mut out = "Image file not found: ".to_owned();
                out.append(path.as_str());
                out.append(".\nResolved to: ");
                out.append(resolved.as_str());
                out.append("\nPlease check that the file exists and the path is correct.");
                out
            },
            ImageError::NotAFile(path) => {
                let mut out = "Path is not a file: ".to_owned();
                out.append(path.as_str());
                out.append(". Please provide a path to an image file.");
                out
            },
            ImageError::Unsupported(path) => {
                let mut out = "Unsupported image format at ".to_owned();
                out.append(path.as_str());
                out.append(". Supported formats: JPEG, PNG, GIF, WebP, SVG, BMP, TIFF");
                out
            },
            ImageError::FileNotRead(path) => {
                let mut out = "Failed to read image file: ".to_owned();
                out.append(path.as_str());
                out
            },
        }
    }
}

/// Whether a path is that of a page of the web.
pub open spec fn is_url(path: Seq<char>) -> bool {
    text::starts_with(path, "http://"@) || text::starts_with(path, "https://"@)
}

/// Finds out where an image is. `home` is the home directory, `current` the current one.
pub fn image_place(path: &str, home: &Option<String>, current: &Option<String>) -> (r: Result<
    ImagePlace,
    ImageError,
>)
    ensures
        is_url(path@) ==> (r matches Ok(ImagePlace::Url(u)) && u@ == path@),
        !is_url(path@) && text::starts_with(path@, "/"@) ==> (r matches Ok(ImagePlace::File(f))
            && f@ == path@),
        !is_url(path@) && text::starts_with(path@, "~/"@) ==> match home {
            Some(h) => r matches Ok(ImagePlace::File(f)) && f@ == paths::joined(h@, path@.skip(2)),
            None => r matches Err(ImageError::NoHome),
        },
        !is_url(path@) && !text::starts_with(path@, "/"@) && !text::starts_with(path@, "~/"@)
            ==> match current {
            Some(c) => r matches Ok(ImagePlace::File(f)) && f@ == paths::joined(c@, path@),
            None => r matches Err(ImageError::NoCurrentDirectory),
        },
{
    if text::text_starts_with(path, "http://") || text::text_starts_with(path, "https://") {
        return Ok(ImagePlace::Url(path.to_owned()));
    }
    proof {
        reveal_strlit("/");
        reveal_strlit("~/");
        if text::starts_with(path@, "/"@) {
            assert(path@.subrange(0, 1)[0] == path@[0]);
        }
        if text::starts_with(path@, "~/"@) {
            assert(path@.subrange(0, 2)[0] == path@[0]);
            assert(path@.skip(2) =~= path@.subrange(2, path@.len() as int));
        }
    }
    if text::text_starts_with(path, "/") {
        Ok(ImagePlace::File(path.to_owned()))
    } else if text::text_starts_with(path, "~/") {
        match home {
            Some(h) => {
                let chars = text::to_chars(path);
                let rest = text::from_range(&chars, 2, chars.len());
                Ok(ImagePlace::File(paths::join_paths(h.as_str(), rest.as_str())))
            },
            None => Err(ImageError::NoHome),
        }
    } else {
        match current {
            Some(c) => Ok(ImagePlace::File(paths::join_paths(c.as_str(), path))),
            None => Err(ImageError::NoCurrentDirectory),
        }
    }
}

/// The format of the images whose names end in an extension.
pub open spec fn format_by_extension(ext: Seq<char>) -> Option<ImageFormat> {
    if ext == "png"@ {
        Some(ImageFormat::Png)
    } else if ext == "jpg"@ || ext == "jpeg"@ {
        Some(ImageFormat::Jpeg)
    } else if ext == "gif"@ {
        Some(ImageFormat::Gif)
    } else if ext == "webp"@ {
        Some(ImageFormat::Webp)
    } else if ext == "svg"@ {
        Some(ImageFormat::Svg)
    } else if ext == "bmp"@ {
        Some(ImageFormat::Bmp)
    } else if ext == "tiff"@ || ext == "tif"@ {
        Some(ImageFormat::Tiff)
    } else {
        None
    }
}

/// The format of the images whose names end in an extension.
pub fn extension_format(ext: &str) -> (r: Option<ImageFormat>)
    ensures
        r == format_by_extension(ext@),
{
    if text::same(ext, "png") {
        Some(ImageFormat::Png)
    } else if text::same(ext, "jpg") || text::same(ext, "jpeg") {
        Some(ImageFormat::Jpeg)
    } else if text::same(ext, "gif") {
        Some(ImageFormat::Gif)
    } else if text::same(ext, "webp") {
        Some(ImageFormat::Webp)
    } else if text::same(ext, "svg") {
        Some(ImageFormat::Svg)
    } else if text::same(ext, "bmp") {
        Some(ImageFormat::Bmp)
    } else if text::same(ext, "tiff") || text::same(ext, "tif") {
        Some(ImageFormat::Tiff)
    } else {
        None
    }
}

/// Whether a path has the extension of an image.
pub open spec fn has_image_extension(resolved: Seq<char>) -> bool {
    paths::extension(resolved) matches Some(ext) && format_by_extension(
        text::lowercase(ext),
    ) is Some
}

/// Why a file cannot be read as an image, if it cannot.
pub fn check_image_file(path: &str, resolved: &str, exists: bool, is_file: bool) -> (r: Result<
    (),
    ImageError,
>)
    ensures
        !exists ==> (r matches Err(ImageError::NotFound { path: p, resolved: q }) && p@ == path@
            && q@ == resolved@),
        exists && !is_file ==> (r matches Err(ImageError::NotAFile(p)) && p@ == path@),
        exists && is_file && !has_image_extension(resolved@) ==> (r matches Err(
            ImageError::Unsupported(p),
        ) && p@ == path@),
        exists && is_file && has_image_extension(resolved@) ==> r is Ok,
{
    if !exists {
        return Err(
            ImageError::NotFound { path: path.to_owned(), resolved: resolved.to_owned() },
        );
    }
    if !is_file {
        return Err(ImageError::NotAFile(path.to_owned()));
    }
    match paths::extension_of(resolved) {
        Some(ext) => {
            let lower = text::lowercase_text(ext.as_str());
            if extension_format(lower.as_str()).is_some() {
                return Ok(());
            }
        },
        None => {},
    }
    Err(ImageError::Unsupported(path.to_owned()))
}

// ---------------------------------------------------------------------------
// The format of an image
// ---------------------------------------------------------------------------

/// Whether bytes stand at a place.
pub open spec fn bytes_at(data: Seq<u8>, part: Seq<u8>, at: int) -> bool {
    at + part.len() <= data.len() && data.subrange(at, at + part.len()) == part
}

fn stand_at(data: &Vec<u8>, part: &Vec<u8>, at: usize) -> (r: bool)
    ensures
        r == bytes_at(data@, part@, at as int),
{
    let len: usize = data.len();
    if part.len() > len || at > len - part.len() {
        return false;
    }
    for i in 0..part.len()
        invariant
            at + part@.len() <= data@.len() == len,
            forall|j: int| 0 <= j < i ==> data@[at + j] == part@[j],
    {
        if data[at + i] != part[i] {
            assert(data@.subrange(at as int, at + part@.len())[i as int] == data@[at + i]);
            return false;
        }
    }
    assert(data@.subrange(at as int, at + part@.len()) =~= part@);
    true
}

/// The format of an image, by its first bytes. What is not known is taken for a PNG image.
pub open spec fn format_by_bytes(data: Seq<u8>) -> ImageFormat {
    if bytes_at(data, seq![0x89u8, 0x50u8, 0x4Eu8, 0x47u8, 0x0Du8, 0x0Au8, 0x1Au8, 0x0Au8], 0) {
        ImageFormat::Png
    } else if bytes_at(data, seq![0xFFu8, 0xD8u8, 0xFFu8], 0) {
        ImageFormat::Jpeg
    } else if bytes_at(data, seq![0x47u8, 0x49u8, 0x46u8, 0x38u8, 0x37u8, 0x61u8], 0) || bytes_at(
        data,
        seq![0x47u8, 0x49u8, 0x46u8, 0x38u8, 0x39u8, 0x61u8],
        0,
    ) {
        ImageFormat::Gif
    } else if bytes_at(data, seq![0x52u8, 0x49u8, 0x46u8, 0x46u8], 0) && data.len() > 12
        && bytes_at(data, seq![0x57u8, 0x45u8, 0x42u8, 0x50u8], 8) {
        ImageFormat::Webp
    } else if bytes_at(data, seq![0x3Cu8, 0x73u8, 0x76u8, 0x67u8], 0) || bytes_at(
        data,
        seq![0x3Cu8, 0x3Fu8, 0x78u8, 0x6Du8, 0x6Cu8],
        0,
    ) {
        ImageFormat::Svg
    } else if bytes_at(data, seq![0x42u8, 0x4Du8], 0) {
        ImageFormat::Bmp
    } else if bytes_at(data, seq![0x49u8, 0x49u8, 0x2Au8, 0x00u8], 0) || bytes_at(
        data,
        seq![0x4Du8, 0x4Du8, 0x00u8, 0x2Au8],
        0,
    ) {
        ImageFormat::Tiff
    } else {
        ImageFormat::Png
    }
}

/// What follows the last dot of a path; all of it, where there is none.
pub open spec fn last_piece(path: Seq<char>) -> Seq<char> {
    text::split(path, '.').last()
}

/// The format of an image, by its name or else by its first bytes.
pub open spec fn image_format(path: Seq<char>, data: Seq<u8>) -> ImageFormat {
    match format_by_extension(text::lowercase(last_piece(path))) {
        Some(f) => f,
        None => format_by_bytes(data),
    }
}

/// The format of an image, by its first bytes.
pub fn bytes_format(data: &Vec<u8>) -> (r: ImageFormat)
    ensures
        r == format_by_bytes(data@),
{
    let png: Vec<u8> = vec![0x89, 0x50, 0x4E, 0x47, 0x0D, 0x0A, 0x1A, 0x0A];
    let jpeg: Vec<u8> = vec![0xFF, 0xD8, 0xFF];
    let gif87: Vec<u8> = vec![0x47, 0x49, 0x46, 0x38, 0x37, 0x61];
    let gif89: Vec<u8> = vec![0x47, 0x49, 0x46, 0x38, 0x39, 0x61];
    let riff: Vec<u8> = vec![0x52, 0x49, 0x46, 0x46];
    let webp: Vec<u8> = vec![0x57, 0x45, 0x42, 0x50];
    let svg: Vec<u8> = vec![0x3C, 0x73, 0x76, 0x67];
    let xml: Vec<u8> = vec![0x3C, 0x3F, 0x78, 0x6D, 0x6C];
    let bmp: Vec<u8> = vec![0x42, 0x4D];
    let little: Vec<u8> = vec![0x49, 0x49, 0x2A, 0x00];
    let big: Vec<u8> = vec![0x4D, 0x4D, 0x00, 0x2A];
    assert(png@ =~= seq![0x89u8, 0x50u8, 0x4Eu8, 0x47u8, 0x0Du8, 0x0Au8, 0x1Au8, 0x0Au8]);
    assert(jpeg@ =~= seq![0xFFu8, 0xD8u8, 0xFFu8]);
    assert(gif87@ =~= seq![0x47u8, 0x49u8, 0x46u8, 0x38u8, 0x37u8, 0x61u8]);
    assert(gif89@ =~= seq![0x47u8, 0x49u8, 0x46u8, 0x38u8, 0x39u8, 0x61u8]);
    assert(riff@ =~= seq![0x52u8, 0x49u8, 0x46u8, 0x46u8]);
    assert(webp@ =~= seq![0x57u8, 0x45u8, 0x42u8, 0x50u8]);
    assert(svg@ =~= seq![0x3Cu8, 0x73u8, 0x76u8, 0x67u8]);
    assert(xml@ =~= seq![0x3Cu8, 0x3Fu8, 0x78u8, 0x6Du8, 0x6Cu8]);
    assert(bmp@ =~= seq![0x42u8, 0x4Du8]);
    assert(little@ =~= seq![0x49u8, 0x49u8, 0x2Au8, 0x00u8]);
    assert(big@ =~= seq![0x4Du8, 0x4Du8, 0x00u8, 0x2Au8]);
    if stand_at(data, &png, 0) {
        ImageFormat::Png
    } else if stand_at(data, &jpeg, 0) {
        ImageFormat::Jpeg
    } else if stand_at(data, &gif87, 0) || stand_at(data, &gif89, 0) {
        ImageFormat::Gif
    } else if stand_at(data, &riff, 0) && data.len() > 12 && stand_at(data, &webp, 8) {
        ImageFormat::Webp
    } else if stand_at(data, &svg, 0) || stand_at(data, &xml, 0) {
        ImageFormat::Svg
    } else if stand_at(data, &bmp, 0) {
        ImageFormat::Bmp
    } else if stand_at(data, &little, 0) || stand_at(data, &big, 0) {
        ImageFormat::Tiff
    } else {
        ImageFormat::Png
    }
}

// ---------------------------------------------------------------------------
// Asking the model
// ---------------------------------------------------------------------------

/// Why images could not be analyzed.
#[derive(Debug)]
pub enum AnalyzeError {
    EmptyPrompt,
    NoImages,
    NoModel,
    NoVision,
    NotLoaded(String),
    NotProcessed(String),
    Stream(String),
    NoAnalysis,
}

/// An error of the analysis in words.
pub open spec fn analyze_error_text(e: AnalyzeError) -> Seq<char> {
    match e {
        AnalyzeError::EmptyPrompt =>
            "Prompt cannot be empty. Please provide a question or instruction for analyzing the image(s)."@,
        AnalyzeError::NoImages =>
            "At least one image path is required. Provide local file paths or URLs."@,
        AnalyzeError::NoModel => "No language model configured"@,
        AnalyzeError::NoVision =>
            "The current model does not support image analysis. Please use a vision-capable model like GPT-4o."@,
        AnalyzeError::NotLoaded(path) => "Failed to load image: "@ + path@,
        AnalyzeError::NotProcessed(path) => "Failed to process image: "@ + path@
            + ". The image may be too large or in an unsupported format."@,
        AnalyzeError::Stream(e) => "Error during image analysis: "@ + e@,
        AnalyzeError::NoAnalysis =>
            "Model did not return any analysis. This may indicate a problem with the model or the images."@,
    }
}

impl AnalyzeError {
    /// The error in words.
    pub fn message(&self) -> (r: String)
        ensures
            r@ == analyze_error_text(*self),
    {
        match self {
            AnalyzeError::EmptyPrompt =>
                "Prompt cannot be empty. Please provide a question or instruction for analyzing the image(s).".to_owned(),
            AnalyzeError::NoImages =>
                "At least one image path is required. Provide local file paths or URLs.".to_owned(),
            AnalyzeError::NoModel => "No language model configured".to_owned(),
            AnalyzeError::NoVision =>
                "The current model does not support image analysis. Please use a vision-capable model like GPT-4o.".to_owned(),
            AnalyzeError::NotLoaded(path) => {
                let mut out = "Failed to load image: ".to_owned();
                out.append(path.as_str());
                out
            },
            AnalyzeError::NotProcessed(path) => {
                let mut out = "Failed to process image: ".to_owned();
                out.append(path.as_str());
                out.append(". The image may be too large or in an unsupported format.");
                out
            },
            AnalyzeError::Stream(e) => {
                let mut out = "Error during image analysis: ".to_owned();
                out.append(e.as_str());
                out
            },
            AnalyzeError::NoAnalysis =>
                "Model did not return any analysis. This may indicate a problem with the model or the images.".to_owned(),
        }
    }
}

/// What is shown of a loaded image.
#[derive(Debug)]
pub enum Thumbnail {
    Image { source: String, mime_type: String },
    Caption(String),
}

/// What is shown of a loaded image.
pub ghost enum ThumbnailView {
    Image { source: Seq<char>, mime_type: Seq<char> },
    Caption(Seq<char>),
}

impl View for Thumbnail {
    type V = ThumbnailView;

    open spec fn view(&self) -> ThumbnailView {
        match self {
            Thumbnail::Image { source, mime_type } => ThumbnailView::Image {
                source: source@,
                mime_type: mime_type@,
            },
            Thumbnail::Caption(c) => ThumbnailView::Caption(c@),
        }
    }
}

/// The views of thumbnails.
pub open spec fn thumbnail_views(all: Seq<Thumbnail>) -> Seq<ThumbnailView> {
    all.map_values(|t: Thumbnail| t@)
}

/// What is shown of images: each that could be encoded, above its path.
pub open spec fn thumbnails(images: Seq<(String, Option<String>)>) -> Seq<ThumbnailView>
    decreases images.len(),
{
    if images.len() == 0 {
        Seq::empty()
    } else {
        let before = thumbnails(images.drop_last());
        match images.last().1 {
            Some(source) => before.push(
                ThumbnailView::Image { source: source@, mime_type: "image/png"@ },
            ).push(ThumbnailView::Caption("📸 `"@ + images.last().0@ + "`"@)),
            None => before,
        }
    }
}

/// What a model sends back.
#[derive(Debug)]
pub enum AnalysisEvent {
    Text(String),
    Stop,
    Failed(String),
    Other,
}

/// What is done after an event.
#[derive(Debug)]
pub enum AnalysisStep {
    More,
    Title(String),
    Done,
    Failed(AnalyzeError),
}

/// The text that was sent back after an event.
pub open spec fn text_after(so_far: Seq<char>, event: AnalysisEvent) -> Seq<char> {
    match event {
        AnalysisEvent::Text(t) => so_far + t@,
        _ => so_far,
    }
}

/// What the model is asked: the prompt, and the schema that the answer must have.
pub open spec fn final_prompt(prompt: Seq<char>, schema: Option<json::JsonView>) -> Seq<char> {
    match schema {
        Some(s) => prompt
            + "\n\nPlease respond ONLY with valid JSON matching this exact schema:\n```json\n"@
            + json::pretty_json(s)
            + "\n```\n\nDo not include any text before or after the JSON."@,
        None => prompt,
    }
}

/// The view of an optional JSON value.
pub open spec fn opt_json_view(j: Option<Json>) -> Option<json::JsonView> {
    match j {
        Some(j) => Some(j@),
        None => None,
    }
}

/// The content of the request: the prompt, then the images.
pub open spec fn request_content(prompt: Seq<char>, images: Seq<MessageImage>) -> Seq<
    message::ContentView,
>
    decreases images.len(),
{
    if images.len() == 0 {
        seq![message::ContentView::Text(prompt)]
    } else {
        request_content(prompt, images.drop_last()).push(
            message::ContentView::Image(images.last()@),
        )
    }
}

// ---------------------------------------------------------------------------
// Showing the analysis
// ---------------------------------------------------------------------------

/// An analysis in a format. `now` is the time.
pub open spec fn formatted(analysis: Seq<char>, format: OutputFormat, now: Seq<char>) -> Seq<char> {
    match format {
        OutputFormat::Text => analysis,
        OutputFormat::Markdown => if text::starts_with(text::trim(analysis), "#"@) {
            analysis
        } else {
            "# Image Analysis\n\n"@ + analysis
        },
        OutputFormat::Json => json::compact_json(timed_analysis(analysis, now)),
    }
}

/// An analysis with the time.
pub open spec fn timed_analysis(analysis: Seq<char>, now: Seq<char>) -> json::JsonView {
    json::JsonView::Object(
        seq![
            ("analysis"@, json::JsonView::Text(analysis)),
            ("timestamp"@, json::JsonView::Text(now)),
        ],
    )
}

/// The part of an answer that may be JSON: what stands in its first JSON code block, or else all
/// from its first brace on.
pub open spec fn json_part(s: Seq<char>) -> Option<Seq<char>> {
    match text::find_from(s, "```json"@, 0) {
        Some(start) => match text::find_from(s, "```"@, start + 7) {
            Some(end) => Some(text::trim(s.subrange(start + 7, end))),
            None => None,
        },
        None => match text::find_from(s, "{"@, 0) {
            Some(start) => Some(s.skip(start)),
            None => None,
        },
    }
}

/// The JSON value that an answer holds.
pub open spec fn json_answer(s: Seq<char>) -> Option<json::JsonView> {
    match json::parsed_json(s) {
        Ok(j) => Some(j),
        Err(_) => match json_part(s) {
            Some(part) => match json::parsed_json(part) {
                Ok(j) => Some(j),
                Err(_) => None,
            },
            None => None,
        },
    }
}

/// A structured answer, or a warning that it is none.
pub open spec fn structured(s: Seq<char>, found: Option<json::JsonView>) -> Seq<char> {
    match found {
        Some(j) => json::pretty_json(j),
        None =>
            "⚠️ Warning: Response was not valid JSON matching the schema.\n\nRaw response:\n"@ + s,
    }
}

/// Whether a result is what is given back of an answer: a structured answer where there is a schema, and
/// else the answer in the format, at whatever time it is. An empty answer is an error.
pub open spec fn gives_back(
    input: AnalyzeImagesInput,
    response: Seq<char>,
    r: Result<String, AnalyzeError>,
) -> bool {
    match r {
        Ok(out) => response.len() > 0 && match input.output_schema {
            Some(_) => out@ == structured(response, json_answer(response)),
            None => exists|now: Seq<char>|
                text::ends_with(now, "+00:00"@) && out@ == #[trigger] formatted(
                    response,
                    input.output_format,
                    now,
                ),
        },
        Err(e) => response.len() == 0 && e is NoAnalysis,
    }
}

/// The time, as `chrono::Utc::now` and `chrono::DateTime::to_rfc3339` give it: text that ends in
/// the offset of UTC. Nothing is said of the date and the time themselves.
#[verifier::external_body]
fn now_text() -> (r: String)
    ensures
        text::ends_with(r@, "+00:00"@),
{
    chrono::Utc::now().to_rfc3339()
}

/// Asks a model about images.
pub struct AnalyzeImagesTool;

impl AnalyzeImagesTool {
    /// The name of the tool.
    pub fn name() -> (r: &'static str)
        ensures
            r@ == "analyze_images"@,
    {
        "analyze_images"
    }

    /// What the tool does to its subject.
    pub fn kind() -> (r: ToolKind)
        ensures
            r == ToolKind::Other,
    {
        ToolKind::Other
    }

    /// The title of a call of the tool. The input is missing where it could not be read.
    pub fn initial_title(input: &Option<AnalyzeImagesInput>) -> (r: String)
        ensures
            r@ == match input {
                Some(i) => if i.image_paths@.len() == 1 {
                    "Analyzing image"@
                } else {
                    "Analyzing "@ + text::decimal(i.image_paths@.len()) + " images"@
                },
                None => "Analyze images"@,
            },
    {
        match input {
            Some(i) => {
                let count: usize = i.image_paths.len();
                if count == 1 {
                    "Analyzing image".to_owned()
                } else {
                    let mut out = "Analyzing ".to_owned();
                    out.append(text::count_text(count).as_str());
                    out.append(" images");
                    out
                }
            },
            None => "Analyze images".to_owned(),
        }
    }

    /// Whether the tool is offered to the models of a provider.
    pub fn supports_provider(provider: &str) -> (r: bool)
        ensures
            r == (provider@ == "copilot_chat"@),
    {
        text::same(provider, "copilot_chat")
    }

    /// Checks what is asked. `vision` says whether the model of the thread sees images; it is
    /// missing where the thread has no model.
    pub fn check_input(input: &AnalyzeImagesInput, vision: Option<bool>) -> (r: Result<
        (),
        AnalyzeError,
    >)
        ensures
            match r {
                Ok(()) => text::trim(input.prompt@).len() > 0 && input.image_paths@.len() > 0
                    && vision == Some(true),
                Err(AnalyzeError::EmptyPrompt) => text::trim(input.prompt@).len() == 0,
                Err(AnalyzeError::NoImages) => text::trim(input.prompt@).len() > 0
                    && input.image_paths@.len() == 0,
                Err(AnalyzeError::NoModel) => text::trim(input.prompt@).len() > 0
                    && input.image_paths@.len() > 0 && vision is None,
                Err(AnalyzeError::NoVision) => text::trim(input.prompt@).len() > 0
                    && input.image_paths@.len() > 0 && vision == Some(false),
                Err(_) => false,
            },
    {
        if text::trim_text(input.prompt.as_str()).as_str().unicode_len() == 0 {
            return Err(AnalyzeError::EmptyPrompt);
        }
        if input.image_paths.len() == 0 {
            return Err(AnalyzeError::NoImages);
        }
        match vision {
            None => Err(AnalyzeError::NoModel),
            Some(sees) => if sees {
                Ok(())
            } else {
                Err(AnalyzeError::NoVision)
            },
        }
    }

    /// The format of an image, by its name or else by its first bytes.
    pub fn detect_image_format(path: &str, data: &Vec<u8>) -> (r: ImageFormat)
        ensures
            r == image_format(path@, data@),
    {
        let pieces = text::split_text(path, '.');
        proof {
            text::split_is_not_empty(path@, '.');
        }
        let n: usize = pieces.len();
        assert(text::views(pieces@).len() == n);
        assert(text::views(pieces@).last() == pieces@[n - 1]@);
        let ext = text::lowercase_text(pieces[n - 1].as_str());
        match extension_format(ext.as_str()) {
            Some(f) => f,
            None => bytes_format(data),
        }
    }

    /// The title after an image was loaded; `done` images are loaded then.
    pub fn loaded_title(done: usize, total: usize) -> (r: String)
        ensures
            r@ == "Loaded image "@ + text::decimal(done as nat) + " of "@ + text::decimal(
                total as nat,
            ),
    {
        let mut out = "Loaded image ".to_owned();
        out.append(text::count_text(done).as_str());
        out.append(" of ");
        out.append(text::count_text(total).as_str());
        out
    }

    /// What is shown of the loaded images. Each path comes with its encoded image, which is missing
    /// where there is none.
    pub fn thumbnails(images: &Vec<(String, Option<String>)>) -> (r: Vec<Thumbnail>)
        ensures
            thumbnail_views(r@) == thumbnails(images@),
    {
        let mut out: Vec<Thumbnail> = Vec::new();
        assert(thumbnail_views(out@) =~= thumbnails(images@.take(0)));
        for i in 0..images.len()
            invariant
                thumbnail_views(out@) == thumbnails(images@.take(i as int)),
        {
            assert(images@.take(i + 1).drop_last() =~= images@.take(i as int));
            assert(images@.take(i + 1).last() == images@[i as int]);
            match &images[i].1 {
                Some(source) => {
                    let mut caption = "📸 `".to_owned();
                    caption.append(images[i].0.as_str());
                    caption.append("`");
                    let ghost seen = out@;
                    let image = Thumbnail::Image {
                        source: source.clone(),
                        mime_type: "image/png".to_owned(),
                    };
                    let below = Thumbnail::Caption(caption);
                    out.push(image);
                    out.push(below);
                    assert(thumbnail_views(out@) =~= thumbnail_views(seen).push(image@).push(
                        below@,
                    ));
                },
                None => {},
            }
        }
        assert(images@.take(images@.len() as int) =~= images@);
        out
    }

    /// What the model is asked.
    pub fn final_prompt(input: &AnalyzeImagesInput) -> (r: String)
        ensures
            r@ == final_prompt(input.prompt@, opt_json_view(input.output_schema)),
    {
        match &input.output_schema {
            Some(schema) => {
                let mut out = input.prompt.clone();
                out.append(
                    "\n\nPlease respond ONLY with valid JSON matching this exact schema:\n```json\n",
                );
                out.append(json::to_string_pretty(schema).as_str());
                out.append("\n```\n\nDo not include any text before or after the JSON.");
                out
            },
            None => input.prompt.clone(),
        }
    }

    /// The request to the model: the prompt, then the images.
    pub fn request(input: &AnalyzeImagesInput, images: &Vec<MessageImage>) -> (r: RequestMessage)
        ensures
            r.role == Role::User,
            !r.cache,
            message::content_views(r.content@) == request_content(
                final_prompt(input.prompt@, opt_json_view(input.output_schema)),
                images@,
            ),
    {
        let prompt = Self::final_prompt(input);
        let ghost asked = prompt@;
        let mut content: Vec<MessageContent> = Vec::new();
        content.push(MessageContent::Text(prompt));
        assert(message::content_views(content@) =~= request_content(asked, images@.take(0)));
        for i in 0..images.len()
            invariant
                message::content_views(content@) == request_content(asked, images@.take(i as int)),
        {
            assert(images@.take(i + 1).drop_last() =~= images@.take(i as int));
            assert(images@.take(i + 1).last() == images@[i as int]);
            let ghost seen = content@;
            let image = MessageContent::Image(images[i].copy());
            content.push(image);
            assert(message::content_views(content@) =~= message::content_views(seen).push(image@));
        }
        assert(images@.take(images@.len() as int) =~= images@);
        RequestMessage { role: Role::User, content, cache: false }
    }

    /// Takes an event of the answer. `so_far` is the text that was sent back. A title says how much
    /// that is, whenever it is a multiple of a hundred bytes.
    pub fn step(so_far: &mut String, event: &AnalysisEvent) -> (r: AnalysisStep)
        ensures
            final(so_far)@ == text_after(old(so_far)@, *event),
            match event {
                AnalysisEvent::Text(_) => {
                    let len = encode_utf8(final(so_far)@).len();
                    if len % 100 == 0 {
                        r matches AnalysisStep::Title(t) && t@ == "Analyzing... ("@ + text::decimal(
                            len,
                        ) + " chars)"@
                    } else {
                        r is More
                    }
                },
                AnalysisEvent::Stop => r is Done,
                AnalysisEvent::Failed(e) => r matches AnalysisStep::Failed(AnalyzeError::Stream(f))
                    && f@ == e@,
                AnalysisEvent::Other => r is More,
            },
    {
        match event {
            AnalysisEvent::Text(t) => {
                so_far.append(t.as_str());
                let len: usize = text::byte_len(so_far.as_str());
                if len % 100 == 0 {
                    let mut title = "Analyzing... (".to_owned();
                    title.append(text::count_text(len).as_str());
                    title.append(" chars)");
                    AnalysisStep::Title(title)
                } else {
                    AnalysisStep::More
                }
            },
            AnalysisEvent::Stop => AnalysisStep::Done,
            AnalysisEvent::Failed(e) => AnalysisStep::Failed(AnalyzeError::Stream(e.clone())),
            AnalysisEvent::Other => AnalysisStep::More,
        }
    }

    /// An analysis in a format, at a time.
    pub fn format_output_at(analysis: &str, format: OutputFormat, now: &str) -> (r: String)
        ensures
            r@ == formatted(analysis@, format, now@),
    {
        broadcast use json::object_view;

        match format {
            OutputFormat::Text => analysis.to_owned(),
            OutputFormat::Markdown => {
                if text::text_starts_with(text::trim_text(analysis).as_str(), "#") {
                    analysis.to_owned()
                } else {
                    let mut out = "# Image Analysis\n\n".to_owned();
                    out.append(analysis);
                    out
                }
            },
            OutputFormat::Json => {
                let mut fields: Vec<(String, Json)> = Vec::new();
                fields.push(("analysis".to_owned(), Json::Text(analysis.to_owned())));
                fields.push(("timestamp".to_owned(), Json::Text(now.to_owned())));
                assert(json::fields_view(fields@) =~= timed_analysis(analysis@, now@)->Object_0);
                json::to_string(&Json::Object(fields))
            },
        }
    }

    /// An analysis in a format.
    pub fn format_output(analysis: &str, format: OutputFormat) -> (r: String)
        ensures
            exists|now: Seq<char>|
                text::ends_with(now, "+00:00"@) && r@ == #[trigger] formatted(
                    analysis@,
                    format,
                    now,
                ),
    {
        let now = now_text();
        Self::format_output_at(analysis, format, now.as_str())
    }

    /// The part of an answer that may be JSON.
    pub fn json_part(response: &str) -> (r: Option<String>)
        ensures
            text::opt_view(r) == json_part(response@),
    {
        let chars = text::to_chars(response);
        let len: usize = chars.len();
        let opening = text::to_chars("```json");
        let fence = text::to_chars("```");
        let brace = text::to_chars("{");
        proof {
            text::find_is_first(response@, "```json"@, 0);
            text::find_is_first(response@, "{"@, 0);
            reveal_strlit("```json");
            reveal_strlit("```");
        }
        match text::find_in(&chars, &opening, 0) {
            Some(start) => {
                proof {
                    text::find_is_first(response@, "```"@, start + 7);
                }
                match text::find_in(&chars, &fence, start + 7) {
                    Some(end) => {
                        let block = text::from_range(&chars, start + 7, end);
                        Some(text::trim_text(block.as_str()))
                    },
                    None => None,
                }
            },
            None => match text::find_in(&chars, &brace, 0) {
                Some(start) => {
                    assert(response@.skip(start as int) =~= response@.subrange(
                        start as int,
                        response@.len() as int,
                    ));
                    Some(text::from_range(&chars, start, len))
                },
                None => None,
            },
        }
    }

    /// A structured answer, or a warning that it is none. `found` is the JSON value that the answer
    /// holds.
    pub fn format_structured_output(response: &str, found: &Option<Json>) -> (r: String)
        ensures
            r@ == structured(response@, opt_json_view(*found)),
    {
        match found {
            Some(j) => json::to_string_pretty(j),
            None => {
                let mut out =
                    "⚠️ Warning: Response was not valid JSON matching the schema.\n\nRaw response:\n".to_owned();
                out.append(response);
                out
            },
        }
    }

    /// The JSON value that an answer holds.
    pub fn json_answer(response: &str) -> (r: Option<Json>)
        ensures
            opt_json_view(r) == json_answer(response@),
    {
        match json::from_str(response) {
            Ok(j) => Some(j),
            Err(_) => match Self::json_part(response) {
                Some(part) => match json::from_str(part.as_str()) {
                    Ok(j) => Some(j),
                    Err(_) => None,
                },
                None => None,
            },
        }
    }

    /// What is given back when the model has answered.
    pub fn finish(input: &AnalyzeImagesInput, response: &str) -> (r: Result<String, AnalyzeError>)
        ensures
            gives_back(*input, response@, r),
    {
        if response.unicode_len() == 0 {
            return Err(AnalyzeError::NoAnalysis);
        }
        if input.output_schema.is_some() {
            let found = Self::json_answer(response);
            Ok(Self::format_structured_output(response, &found))
        } else {
            Ok(Self::format_output(response, input.output_format))
        }
    }
}

// ---------------------------------------------------------------------------
// Laws
// ---------------------------------------------------------------------------

/// Where there is a schema, the format does not count: of two inputs that differ in it alone, the model
/// is asked the same, and what is given back of one answer is the same. An answer that is JSON comes
/// back as that value, laid out, with nothing around it.
pub proof fn schema_overrides_the_format(
    a: AnalyzeImagesInput,
    b: AnalyzeImagesInput,
    response: Seq<char>,
    given_a: Result<String, AnalyzeError>,
    given_b: Result<String, AnalyzeError>,
)
    requires
        a.output_schema is Some,
        b == (AnalyzeImagesInput { output_format: b.output_format, ..a }),
        gives_back(a, response, given_a),
        gives_back(b, response, given_b),
    ensures
        final_prompt(a.prompt@, opt_json_view(a.output_schema)) == final_prompt(
            b.prompt@,
            opt_json_view(b.output_schema),
        ),
        match (given_a, given_b) {
            (Ok(x), Ok(y)) => x@ == y@,
            (Err(x), Err(y)) => x is NoAnalysis && y is NoAnalysis,
            _ => false,
        },
        (given_a matches Ok(x) && json::parsed_json(response) is Ok) ==> given_a->Ok_0@
            == json::pretty_json(json::parsed_json(response)->Ok_0),
{
}

} // verus!
