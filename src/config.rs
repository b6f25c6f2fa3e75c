use vstd::prelude::*;

verus! {

/// The text of each string of `v`, in order.
pub open spec fn texts(v: Seq<String>) -> Seq<Seq<char>> {
    v.map_values(|s: String| s@)
}

/// Names of declarations that are never annotated, whatever their fields.
pub open spec fn skip_names() -> Seq<Seq<char>> {
    seq![
        "CreateSpeechResponse"@,
        "AssistantStreamEvent"@,
        "ImageResponse"@,
        "Image"@,
    ]
}

/// Fragments of type text that the schema format cannot describe.
pub open spec fn problematic_fragments() -> Seq<Seq<char>> {
    seq![
        "Bytes"@,
        "ApiError"@,
        "Arc<"@,
        "PathBuf"@,
        "InputSource"@,
        "WebSearchPreview"@,
        "AudioInput"@,
        "FileInput"@,
        "HostedToolType"@,
        "ToolDefinition"@,
        "ImageInput"@,
        "ResponseMetadata"@,
    ]
}

/// Declarations whose types hold values the schema format cannot describe
/// (a byte buffer, an error, a shared pointer).
pub fn get_skip_list() -> (r: Vec<String>)
    ensures
        texts(r@) == skip_names(),
{
    let mut r: Vec<String> = Vec::new();
    r.push("CreateSpeechResponse".to_owned());
    r.push("AssistantStreamEvent".to_owned());
    r.push("ImageResponse".to_owned());
    r.push("Image".to_owned());
    assert(texts(r@) =~= skip_names());
    r
}

/// Fragments that mark a field type as not describable by the schema format.
pub fn get_problematic_types() -> (r: Vec<String>)
    ensures
        texts(r@) == problematic_fragments(),
{
    let mut r: Vec<String> = Vec::new();
    r.push("Bytes".to_owned());
    r.push("ApiError".to_owned());
    r.push("Arc<".to_owned());
    r.push("PathBuf".to_owned());
    r.push("InputSource".to_owned());
    r.push("WebSearchPreview".to_owned());
    r.push("AudioInput".to_owned());
    r.push("FileInput".to_owned());
    r.push("HostedToolType".to_owned());
    r.push("ToolDefinition".to_owned());
    r.push("ImageInput".to_owned());
    r.push("ResponseMetadata".to_owned());
    assert(texts(r@) =~= problematic_fragments());
    r
}

} // verus!
