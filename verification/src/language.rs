//! The languages that bindings can be generated for.

use vstd::prelude::*;
use vstd::string::*;

use crate::error::{CoreError, CoreResult};
use crate::text::{join3, same_text};

verus! {

/// A language that bindings can be generated for.
#[derive(Debug, Clone, Copy, PartialEq, Eq, Structural)]
pub enum TargetLanguage {
    Kotlin,
    Swift,
    Python,
}

/// A text in lower case.
pub uninterp spec fn lower_text(s: Seq<char>) -> Seq<char>;

/// A text in lower case. Calls `str::to_lowercase`, whose result is named by `lower_text`.
#[verifier::external_body]
fn to_lower(s: &str) -> (r: String)
    ensures
        r@ == lower_text(s@),
{
    s.to_lowercase()
}

/// The language that a text in lower case names.
pub open spec fn language_named(name: Seq<char>) -> Option<TargetLanguage> {
    if name == "kotlin"@ || name == "kt"@ {
        Some(TargetLanguage::Kotlin)
    } else if name == "swift"@ {
        Some(TargetLanguage::Swift)
    } else if name == "python"@ || name == "py"@ {
        Some(TargetLanguage::Python)
    } else {
        None
    }
}

/// Whether `e` says that there is no such language.
pub open spec fn is_language_error(e: CoreError, name: Seq<char>) -> bool {
    e matches CoreError::Config(t) && t@ == "不支持的语言: "@ + name
        + "（可选: kotlin, swift, python）"@
}

impl TargetLanguage {
    /// The language that a text in lower case names.
    pub fn named(name: &str) -> (r: CoreResult<TargetLanguage>)
        ensures
            match r {
                Ok(l) => language_named(name@) == Some(l),
                Err(e) => language_named(name@) is None && is_language_error(e, name@),
            },
    {
        if same_text(name, "kotlin") || same_text(name, "kt") {
            Ok(TargetLanguage::Kotlin)
        } else if same_text(name, "swift") {
            Ok(TargetLanguage::Swift)
        } else if same_text(name, "python") || same_text(name, "py") {
            Ok(TargetLanguage::Python)
        } else {
            Err(
                CoreError::Config(
                    join3("不支持的语言: ", name, "（可选: kotlin, swift, python）"),
                ),
            )
        }
    }

    /// The language that a text names, in whichever case.
    pub fn parse(s: &str) -> (r: CoreResult<TargetLanguage>)
        ensures
            match r {
                Ok(l) => language_named(lower_text(s@)) == Some(l),
                Err(e) => language_named(lower_text(s@)) is None && is_language_error(
                    e,
                    lower_text(s@),
                ),
            },
    {
        let name = to_lower(s);
        TargetLanguage::named(name.as_str())
    }

    /// The language as it is shown.
    pub fn name(&self) -> (r: &'static str)
        ensures
            r@ == (match *self {
                TargetLanguage::Kotlin => "Kotlin"@,
                TargetLanguage::Swift => "Swift"@,
                TargetLanguage::Python => "Python"@,
            }),
    {
        match self {
            TargetLanguage::Kotlin => "Kotlin",
            TargetLanguage::Swift => "Swift",
            TargetLanguage::Python => "Python",
        }
    }
}

/// A language is named by its own name, in whichever case that the lower case of it comes from, or by its
/// short name; anything else is refused.
pub proof fn law_languages_are_named(s: &str, r: CoreResult<TargetLanguage>)
    requires
        call_ensures(TargetLanguage::parse, (s,), r),
    ensures
        (r matches Ok(l) && l is Kotlin) <==> lower_text(s@) == "kotlin"@ || lower_text(s@) == "kt"@,
        (r matches Ok(l) && l is Swift) <==> lower_text(s@) == "swift"@,
        (r matches Ok(l) && l is Python) <==> lower_text(s@) == "python"@ || lower_text(s@) == "py"@,
        r matches Err(e) ==> e is Config,
{
    reveal_strlit("kotlin");
    reveal_strlit("kt");
    reveal_strlit("swift");
    reveal_strlit("python");
    reveal_strlit("py");
    assert("kotlin"@[0] == 'k' && "kt"@[0] == 'k' && "swift"@[0] == 's' && "python"@[0] == 'p'
        && "py"@[0] == 'p');
}

/// A text in lower case names the same language as it does in whichever case.
pub proof fn law_case_does_not_matter(
    s: &str,
    low: &str,
    parsed: CoreResult<TargetLanguage>,
    named: CoreResult<TargetLanguage>,
)
    requires
        low@ == lower_text(s@),
        call_ensures(TargetLanguage::parse, (s,), parsed),
        call_ensures(TargetLanguage::named, (low,), named),
    ensures
        parsed is Ok <==> named is Ok,
        parsed matches Ok(l) ==> named == Ok::<TargetLanguage, CoreError>(l),
{
}

/// A language is shown by its own name.
pub proof fn law_language_is_shown(l: TargetLanguage, r: &'static str)
    requires
        call_ensures(TargetLanguage::name, (&l,), r),
    ensures
        l is Kotlin ==> r@ == "Kotlin"@,
        l is Swift ==> r@ == "Swift"@,
        l is Python ==> r@ == "Python"@,
{
}

} // verus!
