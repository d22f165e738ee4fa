//! The module declarations that the rewriting recognises.
use vstd::prelude::*;

verus! {

/// One name of an `export { … }` list: the local binding and the exported name.
#[derive(Debug, PartialEq, Eq, Hash)]
pub struct ExportSpec<'s> {
    pub bind: &'s str,
    pub name: &'s str,
}

pub struct ExportSpecView {
    pub bind: Seq<char>,
    pub name: Seq<char>,
}

impl<'s> View for ExportSpec<'s> {
    type V = ExportSpecView;

    open spec fn view(&self) -> ExportSpecView {
        ExportSpecView { bind: self.bind@, name: self.name@ }
    }
}

impl<'s> ExportSpec<'s> {
    /// The binding `bind`, exported as `name`.
    #[inline]
    pub fn new(bind: &'s str, name: &'s str) -> (r: Self)
        ensures
            r.bind == bind,
            r.name == name,
    {
        ExportSpec { name, bind }
    }

    /// The binding `name`, exported under its own name.
    #[inline]
    pub fn same(name: &'s str) -> (r: Self)
        ensures
            r.bind == name,
            r.name == name,
    {
        ExportSpec::new(name, name)
    }
}

/// An export declaration.
#[derive(Debug, PartialEq, Eq)]
pub enum Export<'s> {
    /// `export default …`, with the binding that holds the default export.
    Default(&'s str),
    /// `export * from 'module'`, with the module name.
    AllFrom(String),
    /// `export { … }` or an exported declaration.
    Named(Vec<ExportSpec<'s>>),
    /// `export { … } from 'module'`, with the module name.
    NamedFrom(Vec<ExportSpec<'s>>, String),
}

pub enum ExportView {
    Default(Seq<char>),
    AllFrom(Seq<char>),
    Named(Seq<ExportSpecView>),
    NamedFrom(Seq<ExportSpecView>, Seq<char>),
}

/// The views of a list of export specifiers.
pub open spec fn export_specs_view<'s>(v: Seq<ExportSpec<'s>>) -> Seq<ExportSpecView> {
    v.map_values(|s: ExportSpec<'s>| s@)
}

impl<'s> View for Export<'s> {
    type V = ExportView;

    open spec fn view(&self) -> ExportView {
        match self {
            Export::Default(b) => ExportView::Default(b@),
            Export::AllFrom(m) => ExportView::AllFrom(m@),
            Export::Named(v) => ExportView::Named(export_specs_view(v@)),
            Export::NamedFrom(v, m) => ExportView::NamedFrom(export_specs_view(v@), m@),
        }
    }
}

/// One name of an `import { … }` list: the imported name and the local binding.
#[derive(Debug, PartialEq, Eq, Hash)]
pub struct ImportSpec<'s> {
    pub name: &'s str,
    pub bind: &'s str,
}

pub struct ImportSpecView {
    pub name: Seq<char>,
    pub bind: Seq<char>,
}

impl<'s> View for ImportSpec<'s> {
    type V = ImportSpecView;

    open spec fn view(&self) -> ImportSpecView {
        ImportSpecView { name: self.name@, bind: self.bind@ }
    }
}

impl<'s> ImportSpec<'s> {
    /// The imported `name`, bound as `bind`.
    #[inline]
    pub fn new(name: &'s str, bind: &'s str) -> (r: Self)
        ensures
            r.name == name,
            r.bind == bind,
    {
        ImportSpec { name, bind }
    }

    /// The imported `name`, bound under its own name.
    #[inline]
    pub fn same(name: &'s str) -> (r: Self)
        ensures
            r.name == name,
            r.bind == name,
    {
        ImportSpec::new(name, name)
    }
}

/// The bindings of an import declaration besides the default one.
#[derive(Debug, PartialEq, Eq, Hash)]
pub enum Bindings<'s> {
    /// No bindings besides the default one.
    Nothing,
    /// `* as name`.
    NameSpace(&'s str),
    /// `{ … }`.
    Named(Vec<ImportSpec<'s>>),
}

pub enum BindingsView {
    Nothing,
    NameSpace(Seq<char>),
    Named(Seq<ImportSpecView>),
}

/// The views of a list of import specifiers.
pub open spec fn import_specs_view<'s>(v: Seq<ImportSpec<'s>>) -> Seq<ImportSpecView> {
    v.map_values(|s: ImportSpec<'s>| s@)
}

impl<'s> View for Bindings<'s> {
    type V = BindingsView;

    open spec fn view(&self) -> BindingsView {
        match self {
            Bindings::Nothing => BindingsView::Nothing,
            Bindings::NameSpace(b) => BindingsView::NameSpace(b@),
            Bindings::Named(v) => BindingsView::Named(import_specs_view(v@)),
        }
    }
}

/// An import declaration.
#[derive(Debug, PartialEq, Eq, Hash)]
pub struct Import<'s> {
    /// The module name as it stands in the source, with its quotation marks.
    pub module_source: &'s str,
    /// The value of the module name.
    pub module: String,
    pub default_bind: Option<&'s str>,
    pub binds: Bindings<'s>,
}

pub struct ImportView {
    pub module_source: Seq<char>,
    pub module: Seq<char>,
    pub default_bind: Option<Seq<char>>,
    pub binds: BindingsView,
}

/// The view of an optional binding.
pub open spec fn opt_view<'s>(b: Option<&'s str>) -> Option<Seq<char>> {
    match b {
        Some(s) => Some(s@),
        None => None,
    }
}

impl<'s> View for Import<'s> {
    type V = ImportView;

    open spec fn view(&self) -> ImportView {
        ImportView {
            module_source: self.module_source@,
            module: self.module@,
            default_bind: opt_view(self.default_bind),
            binds: self.binds@,
        }
    }
}

impl<'s> Import<'s> {
    /// An import of `module` (written `module_source`) that binds nothing.
    #[inline]
    pub fn new(module_source: &'s str, module: String) -> (r: Self)
        ensures
            r.module_source == module_source,
            r.module == module,
            r.default_bind.is_none(),
            r.binds is Nothing,
    {
        Import { module_source, module, default_bind: None, binds: Bindings::Nothing }
    }
}

/// A module rewritten to CommonJS: the source goes between the prefix and the
/// suffix; `deps` names the modules that it requires, each once.
#[derive(Debug)]
pub struct CjsModule {
    pub source_prefix: String,
    pub source: String,
    pub source_suffix: String,
    pub deps: Vec<String>,
}

} // verus!
