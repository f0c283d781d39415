//! What is decided between picking a file and having a diagram: whether
//! the file is taken at all, what a failure to read it is called, and
//! whether the diagram that came out of it is of a size that is worked on.
//! Reading the file and turning its text into a diagram happen elsewhere;
//! here are the decisions, on what was read.
use vstd::prelude::*;
use vstd::string::*;
use crate::model::DiagramView;
use crate::model::ErdDiagram;
use crate::normalize::normalized;
use crate::text::Placement;
use crate::text::blank;
use crate::text::chars_of;
use crate::text::compare_text;
use crate::text::contains_text;
use crate::text::has_infix;
use crate::text::is_blank;
use crate::text::lowercase_chars;
use crate::text::lowercase_of;

verus! {

/// The largest file that is read: ten mebibytes.
pub const MAX_FILE_SIZE: u64 = 10485760;

/// The most entities that a loaded diagram may hold.
pub const MAX_ENTITIES: usize = 1000;

/// The most relations that a loaded diagram may hold.
pub const MAX_RELATIONS: usize = 5000;

/// The kinds of file that are read.
#[derive(Clone, Copy, Debug, PartialEq, Eq)]
pub enum FileKind {
    /// A diagram, as JSON text.
    Json,
    /// A spreadsheet, as bytes that are handed on unread.
    Xlsx,
}

/// Why a file did not become a diagram.
#[derive(Debug, PartialEq, Eq)]
pub enum LoadError {
    /// The file is larger than `MAX_FILE_SIZE`.
    FileTooLarge,
    /// The name of the file has no extension.
    MissingExtension(FileKind),
    /// The extension is not that of the kind asked for.
    WrongExtension(FileKind),
    /// The file holds nothing, or white space only.
    EmptyFile,
    /// The text is nested more deeply than the parser follows.
    TooComplex,
    /// The text is no diagram; the parser's own words are kept.
    Malformed(String),
    /// The diagram holds more than `MAX_ENTITIES` entities.
    TooManyEntities,
    /// The diagram holds more than `MAX_RELATIONS` relations.
    TooManyRelations,
}

/// A diagram with the path of the file that it was read from.
#[derive(Debug)]
pub struct LoadResult {
    pub diagram: ErdDiagram,
    pub file_path: String,
}

/// The extension that a file of the kind bears, in lower case.
pub open spec fn extension_of(kind: FileKind) -> Seq<char> {
    match kind {
        FileKind::Json => "json"@,
        FileKind::Xlsx => "xlsx"@,
    }
}

/// What the user is told of an error.
pub open spec fn message_text(e: LoadError) -> Seq<char> {
    match e {
        LoadError::FileTooLarge => "파일이 너무 큽니다. 최대 10MB까지 지원합니다."@,
        LoadError::MissingExtension(FileKind::Json) => "파일 확장자가 필요합니다. JSON 파일을 선택해주세요."@,
        LoadError::MissingExtension(FileKind::Xlsx) => "파일 확장자가 필요합니다. XLSX 파일을 선택해주세요."@,
        LoadError::WrongExtension(FileKind::Json) => "JSON 파일만 지원합니다."@,
        LoadError::WrongExtension(FileKind::Xlsx) => "XLSX 파일만 지원합니다."@,
        LoadError::EmptyFile => "파일이 비어있습니다."@,
        LoadError::TooComplex => "JSON 구조가 너무 복잡합니다."@,
        LoadError::Malformed(detail) => "다이어그램 파일을 파싱할 수 없습니다: "@ + detail@,
        LoadError::TooManyEntities => "엔티티가 너무 많습니다."@,
        LoadError::TooManyRelations => "관계가 너무 많습니다."@,
    }
}

impl Clone for LoadError {
    fn clone(&self) -> (copy: Self)
        ensures
            copy == *self,
    {
        match self {
            LoadError::FileTooLarge => LoadError::FileTooLarge,
            LoadError::MissingExtension(kind) => LoadError::MissingExtension(*kind),
            LoadError::WrongExtension(kind) => LoadError::WrongExtension(*kind),
            LoadError::EmptyFile => LoadError::EmptyFile,
            LoadError::TooComplex => LoadError::TooComplex,
            LoadError::Malformed(detail) => LoadError::Malformed(detail.clone()),
            LoadError::TooManyEntities => LoadError::TooManyEntities,
            LoadError::TooManyRelations => LoadError::TooManyRelations,
        }
    }
}

impl LoadError {
    /// What the user is told of the error.
    pub fn message(&self) -> (text: String)
        ensures
            text@ == message_text(*self),
    {
        match self {
            LoadError::FileTooLarge => "파일이 너무 큽니다. 최대 10MB까지 지원합니다.".to_owned(),
            LoadError::MissingExtension(FileKind::Json) => "파일 확장자가 필요합니다. JSON 파일을 선택해주세요.".to_owned(),
            LoadError::MissingExtension(FileKind::Xlsx) => "파일 확장자가 필요합니다. XLSX 파일을 선택해주세요.".to_owned(),
            LoadError::WrongExtension(FileKind::Json) => "JSON 파일만 지원합니다.".to_owned(),
            LoadError::WrongExtension(FileKind::Xlsx) => "XLSX 파일만 지원합니다.".to_owned(),
            LoadError::EmptyFile => "파일이 비어있습니다.".to_owned(),
            LoadError::TooComplex => "JSON 구조가 너무 복잡합니다.".to_owned(),
            LoadError::Malformed(detail) => {
                let mut text = "다이어그램 파일을 파싱할 수 없습니다: ".to_owned();
                text.append(detail.as_str());
                text
            },
            LoadError::TooManyEntities => "엔티티가 너무 많습니다.".to_owned(),
            LoadError::TooManyRelations => "관계가 너무 많습니다.".to_owned(),
        }
    }
}

/// What an extension, if there is one, stands for.
pub open spec fn extension_view(extension: Option<&str>) -> Option<Seq<char>> {
    match extension {
        Some(ext) => Some(ext@),
        None => None,
    }
}

/// What is found of a file before it is read: too large, without an
/// extension, with the wrong one, or nothing. The size is looked at first.
pub open spec fn file_fault(kind: FileKind, size: u64, extension: Option<Seq<char>>) -> Option<
    LoadError,
> {
    if size > MAX_FILE_SIZE {
        Some(LoadError::FileTooLarge)
    } else {
        match extension {
            None => Some(LoadError::MissingExtension(kind)),
            Some(ext) => if lowercase_of(ext) != extension_of(kind) {
                Some(LoadError::WrongExtension(kind))
            } else {
                None
            },
        }
    }
}

/// What is found of an extension that is in lower case already.
pub open spec fn extension_fault(kind: FileKind, lowered: Seq<char>) -> Option<LoadError> {
    if lowered != extension_of(kind) {
        Some(LoadError::WrongExtension(kind))
    } else {
        None
    }
}

/// Whether an extension in lower case is that of the kind.
pub fn check_lowered_extension(kind: FileKind, lowered: &Vec<char>) -> (r: Result<(), LoadError>)
    ensures
        match extension_fault(kind, lowered@) {
            Some(e) => r == Err::<(), LoadError>(e),
            None => r is Ok,
        },
{
    let wanted = match kind {
        FileKind::Json => chars_of("json"),
        FileKind::Xlsx => chars_of("xlsx"),
    };
    match compare_text(lowered, &wanted) {
        Placement::Same => Ok(()),
        _ => Err(LoadError::WrongExtension(kind)),
    }
}

/// Whether a file of the given size and extension is read as one of the
/// kind. Letter case in the extension is set aside.
pub fn check_file(kind: FileKind, size: u64, extension: Option<&str>) -> (r: Result<(), LoadError>)
    ensures
        match file_fault(kind, size, extension_view(extension)) {
            Some(e) => r == Err::<(), LoadError>(e),
            None => r is Ok,
        },
{
    if size > MAX_FILE_SIZE {
        return Err(LoadError::FileTooLarge);
    }
    match extension {
        None => Err(LoadError::MissingExtension(kind)),
        Some(ext) => {
            let lowered = lowercase_chars(ext);
            check_lowered_extension(kind, &lowered)
        },
    }
}

/// Whether the text of a file holds anything to parse.
pub fn check_text(content: &str) -> (r: Result<(), LoadError>)
    ensures
        is_blank(content@) ==> r == Err::<(), LoadError>(LoadError::EmptyFile),
        !is_blank(content@) ==> r is Ok,
{
    if blank(content) {
        Err(LoadError::EmptyFile)
    } else {
        Ok(())
    }
}

/// Whether the bytes of a file hold anything.
pub fn check_bytes(content: &Vec<u8>) -> (r: Result<(), LoadError>)
    ensures
        content@.len() == 0 ==> r == Err::<(), LoadError>(LoadError::EmptyFile),
        content@.len() > 0 ==> r is Ok,
{
    if content.len() == 0 {
        Err(LoadError::EmptyFile)
    } else {
        Ok(())
    }
}

/// The words by which the parser says that the text is nested too deeply.
pub open spec fn depth_phrase() -> Seq<char> {
    "recursion limit"@
}

/// What a failure of the parser is called: too complex where the parser
/// speaks of its limit of depth, malformed with the parser's words else.
pub fn classify_parse_failure(detail: String) -> (e: LoadError)
    ensures
        has_infix(detail@, depth_phrase()) ==> e == LoadError::TooComplex,
        !has_infix(detail@, depth_phrase()) ==> e == LoadError::Malformed(detail),
{
    let words = chars_of(detail.as_str());
    let phrase = chars_of("recursion limit");
    if contains_text(&words, &phrase) {
        LoadError::TooComplex
    } else {
        LoadError::Malformed(detail)
    }
}

/// Whether a diagram is of a size that is worked on. The entities are
/// counted first.
pub fn validate_basic_diagram(diagram: &ErdDiagram) -> (r: Result<(), LoadError>)
    ensures
        diagram@.entities.dom().finite(),
        diagram@.entities.dom().len() > MAX_ENTITIES ==> r == Err::<(), LoadError>(
            LoadError::TooManyEntities,
        ),
        diagram@.entities.dom().len() <= MAX_ENTITIES && diagram@.relations.len() > MAX_RELATIONS
            ==> r == Err::<(), LoadError>(LoadError::TooManyRelations),
        diagram@.entities.dom().len() <= MAX_ENTITIES && diagram@.relations.len() <= MAX_RELATIONS
            ==> r is Ok,
{
    if diagram.entities.len() > MAX_ENTITIES {
        return Err(LoadError::TooManyEntities);
    }
    if diagram.relations.len() > MAX_RELATIONS {
        return Err(LoadError::TooManyRelations);
    }
    Ok(())
}

/// What is found of a diagram that was parsed, once it is repaired: too
/// many entities, too many relations, or nothing.
pub open spec fn size_fault(parsed: DiagramView) -> Option<LoadError> {
    let d = normalized(parsed);
    if d.entities.dom().len() > MAX_ENTITIES {
        Some(LoadError::TooManyEntities)
    } else if d.relations.len() > MAX_RELATIONS {
        Some(LoadError::TooManyRelations)
    } else {
        None
    }
}

/// Takes a diagram that was parsed: it is repaired and, if it is of a size
/// that is worked on, handed on with the path of the file.
pub fn accept_diagram(diagram: ErdDiagram, file_path: String) -> (r: Result<LoadResult, LoadError>)
    ensures
        match size_fault(diagram@) {
            Some(e) => r == Err::<LoadResult, LoadError>(e),
            None => r is Ok && r->Ok_0.diagram@ == normalized(diagram@) && r->Ok_0.file_path
                == file_path,
        },
{
    let mut diagram = diagram;
    diagram.normalize();
    match validate_basic_diagram(&diagram) {
        Err(e) => Err(e),
        Ok(_) => Ok(LoadResult { diagram, file_path }),
    }
}

/// `serde_json::Error`: what the parser hands back where it fails. It is
/// carried through unread.
#[verifier::external_type_specification]
#[verifier::external_body]
pub struct ExJsonError(serde_json::Error);

/// `to_string` of a `serde_json::Error`: the words in which the parser tells
/// of its failure. Nothing is claimed of them.
#[verifier::external_body]
fn failure_words(e: &serde_json::Error) -> (words: String) {
    e.to_string()
}

/// What a failure of the parser is called, by the parser's own words.
pub fn classify_json_failure(e: &serde_json::Error) -> (kind: LoadError)
    ensures
        kind == LoadError::TooComplex || (kind matches LoadError::Malformed(detail) && !has_infix(
            detail@,
            depth_phrase(),
        )),
{
    classify_parse_failure(failure_words(e))
}

/// Takes what the parser made of a file: a failure gets its name; a
/// diagram is repaired and, if it is of a size that is worked on, handed
/// on with the path of the file.
pub fn accept_parsed(parsed: Result<ErdDiagram, serde_json::Error>, file_path: String) -> (r:
    Result<LoadResult, LoadError>)
    ensures
        match parsed {
            Err(_) => r is Err && (r->Err_0 == LoadError::TooComplex || (r->Err_0 matches LoadError::Malformed(
                detail,
            ) && !has_infix(detail@, depth_phrase()))),
            Ok(diagram) => match size_fault(diagram@) {
                Some(e) => r == Err::<LoadResult, LoadError>(e),
                None => r is Ok && r->Ok_0.diagram@ == normalized(diagram@) && r->Ok_0.file_path
                    == file_path,
            },
        },
{
    match parsed {
        Err(e) => Err(classify_json_failure(&e)),
        Ok(diagram) => accept_diagram(diagram, file_path),
    }
}

} // verus!
