//! The rows of the workspace: projects, schedules, memos, memo tags,
//! categories and clients.

use vstd::prelude::*;
use crate::text;

verus! {

#[derive(Debug, Clone, PartialEq)]
pub struct Project {
    pub id: i64,
    pub priority: String,
    pub number: Option<i64>,
    pub name: String,
    pub category: Option<String>,
    pub path: Option<String>,
    pub evaluation: Option<String>,
    pub sort_order: i64,
    pub created_at: String,
    pub updated_at: String,
}

impl Project {
    /// A copy of this project.
    pub fn duplicate(&self) -> (r: Project)
        ensures
            r == *self,
    {
        Project {
            id: self.id,
            priority: self.priority.clone(),
            number: self.number,
            name: self.name.clone(),
            category: text::clone_opt(&self.category),
            path: text::clone_opt(&self.path),
            evaluation: text::clone_opt(&self.evaluation),
            sort_order: self.sort_order,
            created_at: self.created_at.clone(),
            updated_at: self.updated_at.clone(),
        }
    }
}

#[derive(Debug, Clone, PartialEq)]
pub struct Schedule {
    pub id: i64,
    pub date: String,
    pub time: Option<String>,
    pub location: Option<String>,
    pub description: Option<String>,
    pub notes: Option<String>,
    pub remind_before_5min: bool,
    pub remind_at_start: bool,
    pub created_at: String,
    pub updated_at: String,
}

/// How large a memo's text is drawn on the Focus board.
#[derive(Debug, Clone, Copy, PartialEq, Eq, Structural)]
pub enum MemoFontSize {
    Small,
    Normal,
    Large,
}

/// The stored name of a font size.
pub open spec fn font_size_name(f: MemoFontSize) -> Seq<char> {
    match f {
        MemoFontSize::Small => "small"@,
        MemoFontSize::Normal => "normal"@,
        MemoFontSize::Large => "large"@,
    }
}

/// The font size a stored name denotes, if any.
pub open spec fn font_size_of(s: Seq<char>) -> Option<MemoFontSize> {
    if s == "small"@ {
        Some(MemoFontSize::Small)
    } else if s == "normal"@ {
        Some(MemoFontSize::Normal)
    } else if s == "large"@ {
        Some(MemoFontSize::Large)
    } else {
        None
    }
}

impl MemoFontSize {
    /// The size a memo has when none is given.
    pub fn default_size() -> (r: MemoFontSize)
        ensures
            r == MemoFontSize::Normal,
    {
        MemoFontSize::Normal
    }

    pub fn as_str(self) -> (r: &'static str)
        ensures
            r@ == font_size_name(self),
    {
        match self {
            MemoFontSize::Small => "small",
            MemoFontSize::Normal => "normal",
            MemoFontSize::Large => "large",
        }
    }

    /// Parses a stored name; anything else is refused with a message that
    /// names the `font_size` field.
    pub fn parse(s: &str) -> (r: Result<MemoFontSize, String>)
        ensures
            match font_size_of(s@) {
                Some(f) => r == Ok::<MemoFontSize, String>(f),
                None => r matches Err(e) && e@ == "invalid font_size: "@ + text::str_debug(s@),
            },
    {
        let v = text::chars_of(s);
        if text::chars_eq_str(v.as_slice(), "small") {
            Ok(MemoFontSize::Small)
        } else if text::chars_eq_str(v.as_slice(), "normal") {
            Ok(MemoFontSize::Normal)
        } else if text::chars_eq_str(v.as_slice(), "large") {
            Ok(MemoFontSize::Large)
        } else {
            Err(text::with_debug("invalid font_size: ", s))
        }
    }
}

impl Default for MemoFontSize {
    fn default() -> (r: MemoFontSize)
        ensures
            r == MemoFontSize::Normal,
    {
        MemoFontSize::Normal
    }
}

/// Parsing the stored name of a font size gives that size back.
pub proof fn lemma_font_size_round_trip(f: MemoFontSize)
    ensures
        font_size_of(font_size_name(f)) == Some(f),
{
    reveal_strlit("small");
    reveal_strlit("normal");
    reveal_strlit("large");
    assert("small"@.len() != "normal"@.len());
    assert("large"@[0] != "small"@[0]);
}

/// A memo tag, with the number of memos that carry it.
#[derive(Debug, Clone, PartialEq)]
pub struct MemoTag {
    pub id: i64,
    pub name: String,
    pub color: String,
    pub sort_order: i64,
    pub usage_count: i64,
    pub created_at: String,
    pub updated_at: String,
}

impl MemoTag {
    /// A copy of this tag.
    pub fn duplicate(&self) -> (r: MemoTag)
        ensures
            r == *self,
    {
        MemoTag {
            id: self.id,
            name: self.name.clone(),
            color: self.color.clone(),
            sort_order: self.sort_order,
            usage_count: self.usage_count,
            created_at: self.created_at.clone(),
            updated_at: self.updated_at.clone(),
        }
    }
}

/// A sticky memo. Its Focus-board position is kept by the application
/// layer, beside this record.
#[derive(Debug, Clone, PartialEq)]
pub struct Memo {
    pub id: i64,
    pub content: String,
    pub color: String,
    pub project_id: Option<i64>,
    pub sort_order: i64,
    pub font_size: MemoFontSize,
    pub is_bold: bool,
    pub tags: Vec<MemoTag>,
    pub created_at: String,
    pub updated_at: String,
}

#[derive(Debug, Clone, PartialEq)]
pub struct Client {
    pub id: i64,
    pub company_name: Option<String>,
    pub ceo: Option<String>,
    pub phone: Option<String>,
    pub fax: Option<String>,
    pub email: Option<String>,
    pub offices: Option<String>,
    pub project_desc: Option<String>,
    pub status: Option<String>,
    pub created_at: String,
    pub updated_at: String,
}

/// A user-editable project category, with the number of projects that use
/// its name.
#[derive(Debug, Clone, PartialEq)]
pub struct Category {
    pub id: i64,
    pub name: String,
    pub color: String,
    pub sort_order: i64,
    pub usage_count: i64,
    pub created_at: String,
    pub updated_at: String,
}

} // verus!
