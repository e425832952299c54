//! File formats of tables and copies.
use crate::text::{lower_form, same_text};
use vstd::prelude::*;

verus! {

/// The file formats that table options can be set for.
#[derive(Clone, Copy, Debug, PartialEq, Eq, Structural)]
pub enum ConfigFileType {
    CSV,
    JSON,
    PARQUET,
}

/// The format that a file type in lower case stands for. Other types are left to custom formats.
pub open spec fn file_type_named(lower: Seq<char>) -> Option<ConfigFileType> {
    if lower == "csv"@ {
        Some(ConfigFileType::CSV)
    } else if lower == "json"@ {
        Some(ConfigFileType::JSON)
    } else if lower == "parquet"@ {
        Some(ConfigFileType::PARQUET)
    } else {
        None
    }
}

/// The format that the file type `lower`, which is in lower case, stands for.
pub fn config_file_type_from_lowercase(lower: &str) -> (r: Option<ConfigFileType>)
    ensures
        r == file_type_named(lower@),
{
    if same_text(lower, "csv") {
        Some(ConfigFileType::CSV)
    } else if same_text(lower, "json") {
        Some(ConfigFileType::JSON)
    } else if same_text(lower, "parquet") {
        Some(ConfigFileType::PARQUET)
    } else {
        None
    }
}

/// The format that a file type or file extension stands for, whatever its case.
pub fn config_file_type_from_str(ext: &str) -> (r: Option<ConfigFileType>)
    ensures
        r == file_type_named(lower_form(ext@)),
{
    let lower = ext.to_lowercase();
    config_file_type_from_lowercase(lower.as_str())
}

/// A file type is recognized in any mix of small and capital letters.
pub proof fn law_file_types_ignore_case(ext: Seq<char>)
    requires
        crate::text::ascii_text(ext),
    ensures
        crate::text::same_ignoring_ascii_case(ext, "csv"@) ==> file_type_named(lower_form(ext))
            == Some(ConfigFileType::CSV),
        crate::text::same_ignoring_ascii_case(ext, "json"@) ==> file_type_named(lower_form(ext))
            == Some(ConfigFileType::JSON),
        crate::text::same_ignoring_ascii_case(ext, "parquet"@) ==> file_type_named(lower_form(ext))
            == Some(ConfigFileType::PARQUET),
{
    reveal_strlit("csv");
    reveal_strlit("json");
    reveal_strlit("parquet");
    if crate::text::same_ignoring_ascii_case(ext, "csv"@) {
        crate::text::law_lower_form_ignores_case(ext, "csv"@);
        assert(lower_form("csv"@) =~= "csv"@);
    }
    if crate::text::same_ignoring_ascii_case(ext, "json"@) {
        crate::text::law_lower_form_ignores_case(ext, "json"@);
        assert(lower_form("json"@) =~= "json"@);
    }
    if crate::text::same_ignoring_ascii_case(ext, "parquet"@) {
        crate::text::law_lower_form_ignores_case(ext, "parquet"@);
        assert(lower_form("parquet"@) =~= "parquet"@);
    }
}

/// A format is found for its own name only, and each of the three names has one.
pub proof fn law_formats_have_one_name(lower: Seq<char>)
    ensures
        file_type_named(lower) == Some(ConfigFileType::CSV) <==> lower == seq!['c', 's', 'v'],
        file_type_named(lower) == Some(ConfigFileType::JSON) <==> lower == seq!['j', 's', 'o', 'n'],
        file_type_named(lower) == Some(ConfigFileType::PARQUET) <==> lower == seq![
            'p',
            'a',
            'r',
            'q',
            'u',
            'e',
            't',
        ],
{
    reveal_strlit("csv");
    reveal_strlit("json");
    reveal_strlit("parquet");
    assert("csv"@ =~= seq!['c', 's', 'v']);
    assert("json"@ =~= seq!['j', 's', 'o', 'n']);
    assert("parquet"@ =~= seq!['p', 'a', 'r', 'q', 'u', 'e', 't']);
    assert("csv"@.len() != "json"@.len() && "csv"@.len() != "parquet"@.len());
}

} // verus!
