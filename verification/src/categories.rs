//! The rules for user-editable project categories: names are trimmed and
//! unique, a rename carries over to every project that used the old name,
//! and a category that projects still use cannot be deleted.

use vstd::prelude::*;
use crate::text;

verus! {

/// Color of a category created without one.
pub const DEFAULT_CATEGORY_COLOR: &'static str = "#6b7280";

/// Why a category operation was refused.
#[derive(Debug, Clone, PartialEq)]
pub enum CategoryError {
    EmptyName,
    Duplicate(String),
    NotFound(i64),
    InUse { name: String, count: i64 },
    Sql(String),
}

/// The message shown for an error.
pub open spec fn category_error_message(e: CategoryError) -> Seq<char> {
    match e {
        CategoryError::EmptyName => "카테고리 이름이 비어 있습니다"@,
        CategoryError::Duplicate(n) => "이미 존재하는 카테고리 이름입니다: "@ + n@,
        CategoryError::NotFound(id) => "카테고리를 찾을 수 없음: id="@ + text::int_decimal(id as int),
        CategoryError::InUse { name, count } => "카테고리 사용 중 ("@ + text::int_decimal(
            count as int,
        ) + "개 프로젝트): "@ + name@,
        CategoryError::Sql(m) => "sqlite: "@ + m@,
    }
}

impl CategoryError {
    pub fn message(&self) -> (r: String)
        ensures
            r@ == category_error_message(*self),
    {
        match self {
            CategoryError::EmptyName => String::from_str("카테고리 이름이 비어 있습니다"),
            CategoryError::Duplicate(n) => {
                let mut s = String::from_str("이미 존재하는 카테고리 이름입니다: ");
                s.append(n.as_str());
                s
            },
            CategoryError::NotFound(id) => {
                let mut s = String::from_str("카테고리를 찾을 수 없음: id=");
                let d = text::i64_to_string(*id);
                s.append(d.as_str());
                s
            },
            CategoryError::InUse { name, count } => {
                let mut s = String::from_str("카테고리 사용 중 (");
                let d = text::i64_to_string(*count);
                s.append(d.as_str());
                s.append("개 프로젝트): ");
                s.append(name.as_str());
                s
            },
            CategoryError::Sql(m) => {
                let mut s = String::from_str("sqlite: ");
                s.append(m.as_str());
                s
            },
        }
    }
}

/// The fields a category update may change; `None` leaves a field alone.
pub struct UpdateCategory<'a> {
    pub name: Option<&'a str>,
    pub color: Option<&'a str>,
    pub sort_order: Option<i64>,
}

/// A category name as stored: the given name trimmed, which must not be
/// empty.
pub fn clean_name(name: &str) -> (r: Result<String, CategoryError>)
    ensures
        text::trim_spec(name@).len() == 0 ==> r == Err::<String, CategoryError>(
            CategoryError::EmptyName,
        ),
        text::trim_spec(name@).len() > 0 ==> (r matches Ok(n) && n@ == text::trim_spec(name@)),
{
    let n = text::trim(name);
    if n.as_str().unicode_len() == 0 {
        Err(CategoryError::EmptyName)
    } else {
        Ok(n)
    }
}

/// The color a new category gets: the given one trimmed, else the default.
pub fn create_color(color: Option<&str>) -> (r: String)
    ensures
        r@ == match color {
            Some(c) => text::trim_spec(c@),
            None => DEFAULT_CATEGORY_COLOR@,
        },
{
    match color {
        Some(c) => text::trim(c),
        None => String::from_str(DEFAULT_CATEGORY_COLOR),
    }
}

/// A name is free when no other category holds it: `existing` counts the
/// categories that do.
pub fn check_unique(name: String, existing: i64) -> (r: Result<String, CategoryError>)
    ensures
        existing > 0 ==> r == Err::<String, CategoryError>(CategoryError::Duplicate(name)),
        existing <= 0 ==> r == Ok::<String, CategoryError>(name),
{
    if existing > 0 {
        Err(CategoryError::Duplicate(name))
    } else {
        Ok(name)
    }
}

/// The name a patch renames a category to, when it is a real rename: the
/// patched name trimmed, if it differs from `current_name`.
pub fn rename_target(current_name: &str, patch_name: Option<&str>) -> (r: Result<
    Option<String>,
    CategoryError,
>)
    ensures
        match patch_name {
            None => r == Ok::<Option<String>, CategoryError>(None),
            Some(raw) => {
                let t = text::trim_spec(raw@);
                if t.len() == 0 {
                    r == Err::<Option<String>, CategoryError>(CategoryError::EmptyName)
                } else if t == current_name@ {
                    r == Ok::<Option<String>, CategoryError>(None)
                } else {
                    r matches Ok(Some(n)) && n@ == t
                }
            },
        },
{
    match patch_name {
        None => Ok(None),
        Some(raw) => {
            let t = clean_name(raw)?;
            if text::str_eq(t.as_str(), current_name) {
                Ok(None)
            } else {
                Ok(Some(t))
            }
        },
    }
}

/// A rename of a category, which every project using `from` follows.
#[derive(Debug, Clone, PartialEq)]
pub struct CategoryRename {
    pub from: String,
    pub to: String,
}

/// What an accepted category update writes, in one transaction.
#[derive(Debug, Clone, PartialEq)]
pub struct CategoryUpdatePlan {
    pub id: i64,
    pub rename: Option<CategoryRename>,
    pub color: Option<String>,
    pub sort_order: Option<i64>,
}

/// The writes of an update whose rename (if any) was checked: the rename
/// from the current name, the patched color trimmed, the patched order.
pub fn plan_update(
    id: i64,
    current_name: String,
    new_name: Option<String>,
    patch: &UpdateCategory,
) -> (r: CategoryUpdatePlan)
    ensures
        r.id == id,
        match new_name {
            Some(n) => r.rename == Some(CategoryRename { from: current_name, to: n }),
            None => r.rename is None,
        },
        match patch.color {
            Some(c) => r.color matches Some(rc) && rc@ == text::trim_spec(c@),
            None => r.color is None,
        },
        r.sort_order == patch.sort_order,
{
    let rename = match new_name {
        Some(n) => Some(CategoryRename { from: current_name, to: n }),
        None => None,
    };
    let color = match patch.color {
        Some(c) => Some(text::trim(c)),
        None => None,
    };
    CategoryUpdatePlan { id, rename, color, sort_order: patch.sort_order }
}

/// A category may be deleted only while no project uses it; `usage` counts
/// the projects that do.
pub fn check_delete(name: String, usage: i64) -> (r: Result<(), CategoryError>)
    ensures
        usage > 0 ==> r == Err::<(), CategoryError>(CategoryError::InUse { name, count: usage }),
        usage <= 0 ==> r == Ok::<(), CategoryError>(()),
{
    if usage > 0 {
        Err(CategoryError::InUse { name, count: usage })
    } else {
        Ok(())
    }
}

/// Whether the default categories are seeded: only into an empty table.
pub fn should_seed(count: i64) -> (r: bool)
    ensures
        r == (count <= 0),
{
    count <= 0
}

/// The categories a fresh workspace starts with: name, color, order.
pub fn seed_categories() -> (r: Vec<(&'static str, &'static str, i64)>)
    ensures
        r@.len() == 5,
        r@[0].0@ == "Active"@ && r@[0].1@ == "#22c55e"@ && r@[0].2 == 0,
        r@[1].0@ == "Side"@ && r@[1].1@ == "#f97316"@ && r@[1].2 == 1,
        r@[2].0@ == "Lab"@ && r@[2].1@ == "#a855f7"@ && r@[2].2 == 2,
        r@[3].0@ == "Tools"@ && r@[3].1@ == "#6b7280"@ && r@[3].2 == 3,
        r@[4].0@ == "Lecture"@ && r@[4].1@ == "#3b82f6"@ && r@[4].2 == 4,
{
    let mut r = Vec::new();
    r.push(("Active", "#22c55e", 0i64));
    r.push(("Side", "#f97316", 1i64));
    r.push(("Lab", "#a855f7", 2i64));
    r.push(("Tools", "#6b7280", 3i64));
    r.push(("Lecture", "#3b82f6", 4i64));
    r
}

/// A new category as the interface sends it.
#[derive(Debug, Clone, PartialEq)]
pub struct CreateCategoryInput {
    pub name: String,
    pub color: Option<String>,
}

/// Changed category fields as the interface sends them.
#[derive(Debug, Clone, PartialEq)]
pub struct UpdateCategoryInput {
    pub name: Option<String>,
    pub color: Option<String>,
    pub sort_order: Option<i64>,
}

impl UpdateCategoryInput {
    /// The same change as the store's patch.
    pub fn as_patch(&self) -> (r: UpdateCategory<'_>)
        ensures
            match self.name {
                Some(n) => r.name matches Some(x) && x@ == n@,
                None => r.name is None,
            },
            match self.color {
                Some(c) => r.color matches Some(x) && x@ == c@,
                None => r.color is None,
            },
            r.sort_order == self.sort_order,
    {
        UpdateCategory {
            name: text::opt_as_str(&self.name),
            color: text::opt_as_str(&self.color),
            sort_order: self.sort_order,
        }
    }
}

} // verus!
