//! Templates for the names of databases and tables, and what is reported when one fails to
//! render.
use crate::model::view_option;
use vstd::prelude::*;

verus! {

/// A template, by its text. What it renders to is decided where metrics come from.
#[derive(Clone, Debug, PartialEq, Eq)]
pub struct Template {
    pub text: String,
}

impl View for Template {
    type V = Seq<char>;

    open spec fn view(&self) -> Seq<char> {
        self.text@
    }
}

/// The model of what rendering a template came to: a name, or why there is none.
pub open spec fn view_rendering(rendering: Result<String, String>) -> Result<Seq<char>, Seq<char>> {
    match rendering {
        Ok(name) => Ok(name@),
        Err(error) => Err(error@),
    }
}

/// The model of what rendering a template came to, where it was rendered.
pub open spec fn view_optional_rendering(rendering: Option<Result<String, String>>) -> Option<
    Result<Seq<char>, Seq<char>>,
> {
    match rendering {
        Some(rendering) => Some(view_rendering(rendering)),
        None => None,
    }
}

/// The name that rendering a template came to, if it did.
pub open spec fn rendered_name(rendering: Option<Result<Seq<char>, Seq<char>>>) -> Option<
    Seq<char>,
> {
    match rendering {
        Some(Ok(name)) => Some(name),
        _ => None,
    }
}

/// Reports that a template failed to render.
#[derive(Clone, Debug, PartialEq, Eq)]
pub struct TemplateRenderingError {
    /// Why it failed.
    pub error: String,
    /// What the template is for.
    pub field: Option<&'static str>,
    /// Whether the metric is dropped for it.
    pub drop_event: bool,
}

/// The model of a [`TemplateRenderingError`].
pub struct TemplateRenderingErrorView {
    pub error: Seq<char>,
    pub field: Option<Seq<char>>,
    pub drop_event: bool,
}

impl View for TemplateRenderingError {
    type V = TemplateRenderingErrorView;

    open spec fn view(&self) -> TemplateRenderingErrorView {
        TemplateRenderingErrorView {
            error: self.error@,
            field: view_option(self.field),
            drop_event: self.drop_event,
        }
    }
}

/// The report of a database name that failed to render: the metric is dropped.
pub open spec fn dbname_error(error: Seq<char>) -> TemplateRenderingErrorView {
    TemplateRenderingErrorView { error, field: Some("dbname"@), drop_event: true }
}

/// The report of a table name that failed to render: the metric is not dropped.
pub open spec fn table_error(error: Seq<char>) -> TemplateRenderingErrorView {
    TemplateRenderingErrorView { error, field: Some("table"@), drop_event: false }
}

}
