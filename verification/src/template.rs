//! Multi-format mail templates: which formats a template comes in, where
//! each format's file lives, and how the `multi_template` attribute is read.

use vstd::prelude::*;
use vstd::string::StringExecFns;

verus! {

/// A format a mail template comes in.
#[derive(Clone, Copy, Debug, PartialEq, Eq, Structural)]
pub enum TemplateVariant {
    Email,
    Markdown,
    Text,
}

/// Why a `multi_template` attribute cannot be read.
#[derive(Clone, Copy, Debug, PartialEq, Eq, Structural)]
pub enum AttrError {
    /// The attribute is not `multi_template`.
    ExpectedMultiTemplate,
    /// A listed variant is not a known format.
    UnknownVariant,
    /// An entry of the attribute is neither `name` nor `variants`.
    UnrecognizedAttribute,
    /// The enum variant has no attribute at all.
    MissingAttribute,
}

/// One entry inside `#[multi_template(...)]`.
#[derive(Clone, Debug)]
pub enum MetaItem {
    /// `name = "..."`
    Name(String),
    /// `variants(...)`, with the identifiers listed.
    Variants(Vec<String>),
    /// Any other entry, by its path.
    Other(String),
}

/// A read `multi_template` attribute: the template name and its formats.
#[derive(Clone, Debug)]
pub struct MultiTemplateAttribute {
    pub name: String,
    pub variants: Vec<TemplateVariant>,
}

/// The identifier of a format.
pub open spec fn variant_ident(v: TemplateVariant) -> Seq<char> {
    match v {
        TemplateVariant::Email => "email"@,
        TemplateVariant::Markdown => "markdown"@,
        TemplateVariant::Text => "text"@,
    }
}

/// The file extension of a format.
pub open spec fn variant_ext(v: TemplateVariant) -> Seq<char> {
    match v {
        TemplateVariant::Email => "html"@,
        TemplateVariant::Markdown => "md"@,
        TemplateVariant::Text => "txt"@,
    }
}

/// The format with the given identifier, if any.
pub open spec fn spec_parse_variant(ident: Seq<char>) -> Option<TemplateVariant> {
    if ident == "email"@ {
        Some(TemplateVariant::Email)
    } else if ident == "markdown"@ {
        Some(TemplateVariant::Markdown)
    } else if ident == "text"@ {
        Some(TemplateVariant::Text)
    } else {
        None
    }
}

/// The name `convert_case` gives an identifier in Pascal case.
pub uninterp spec fn spec_pascal_case(s: Seq<char>) -> Seq<char>;

/// A non-empty word of lower-case ASCII letters.
pub open spec fn is_lower_word(s: Seq<char>) -> bool {
    s.len() > 0 && forall|i: int| 0 <= i < s.len() ==> 'a' <= #[trigger] s[i] <= 'z'
}

/// A word with its first letter in upper case.
pub open spec fn capitalized(s: Seq<char>) -> Seq<char> {
    seq![((s[0] as u32) - 32) as char] + s.drop_first()
}

/// An identifier in Pascal case, by `convert_case`'s
/// `Casing::to_case(Case::Pascal)`.  The result is named; the contract also
/// states what the source shows for a single word of lower-case letters: no
/// word boundary splits it, and the word is capitalized.
#[verifier::external_body]
fn to_pascal_case(s: &str) -> (r: String)
    ensures
        r@ == spec_pascal_case(s@),
        is_lower_word(s@) ==> r@ == capitalized(s@),
{
    convert_case::Casing::to_case(&s, convert_case::Case::Pascal)
}

fn str_eq(a: &str, b: &str) -> (r: bool)
    ensures
        r == (a@ == b@),
{
    String::from_str(a) == String::from_str(b)
}

impl TemplateVariant {
    /// The identifier of this format.
    pub fn ident(self) -> (r: &'static str)
        ensures
            r@ == variant_ident(self),
    {
        match self {
            TemplateVariant::Email => "email",
            TemplateVariant::Markdown => "markdown",
            TemplateVariant::Text => "text",
        }
    }

    /// The file extension of this format.
    pub fn extension(self) -> (r: &'static str)
        ensures
            r@ == variant_ext(self),
    {
        match self {
            TemplateVariant::Email => "html",
            TemplateVariant::Markdown => "md",
            TemplateVariant::Text => "txt",
        }
    }

    /// The template file of this format for the template `name`:
    /// `{name}/{ident}.{ext}`.
    pub fn template_path(self, name: &str) -> (r: String)
        ensures
            r@ == name@ + "/"@ + variant_ident(self) + "."@ + variant_ext(self),
    {
        let mut s = String::from_str(name);
        s.append("/");
        s.append(self.ident());
        s.append(".");
        s.append(self.extension());
        s
    }

    /// The enum variant generated for this format: its identifier in Pascal
    /// case, which is the identifier capitalized.
    pub fn enum_variant_name(self) -> (r: String)
        ensures
            r@ == spec_pascal_case(variant_ident(self)),
            r@ == capitalized(variant_ident(self)),
    {
        proof {
            reveal_strlit("email");
            reveal_strlit("markdown");
            reveal_strlit("text");
        }
        to_pascal_case(self.ident())
    }
}

/// The file extension of a format given by its identifier.
pub fn variant_to_ext(var: &str) -> (r: &'static str)
    requires
        spec_parse_variant(var@) is Some,
    ensures
        r@ == variant_ext(spec_parse_variant(var@)->0),
{
    if str_eq(var, "email") {
        "html"
    } else if str_eq(var, "markdown") {
        "md"
    } else {
        "txt"
    }
}

/// The format with the given identifier; any other identifier is an unknown
/// variant.
pub fn parse_variant(ident: &str) -> (r: Result<TemplateVariant, AttrError>)
    ensures
        r matches Ok(v) ==> spec_parse_variant(ident@) == Some(v),
        r is Err <==> spec_parse_variant(ident@) is None,
        r is Err ==> r == Err::<TemplateVariant, AttrError>(AttrError::UnknownVariant),
{
    if str_eq(ident, "email") {
        Ok(TemplateVariant::Email)
    } else if str_eq(ident, "markdown") {
        Ok(TemplateVariant::Markdown)
    } else if str_eq(ident, "text") {
        Ok(TemplateVariant::Text)
    } else {
        Err(AttrError::UnknownVariant)
    }
}

/// The formats of a list of identifiers, or the error at the first unknown
/// one.
pub open spec fn spec_parse_variants(idents: Seq<Seq<char>>) -> Result<Seq<TemplateVariant>, AttrError>
    decreases idents.len(),
{
    if idents.len() == 0 {
        Ok(Seq::empty())
    } else {
        match spec_parse_variants(idents.drop_last()) {
            Err(e) => Err(e),
            Ok(vs) => match spec_parse_variant(idents.last()) {
                Some(v) => Ok(vs.push(v)),
                None => Err(AttrError::UnknownVariant),
            },
        }
    }
}

/// The abstract content of an attribute entry.
pub enum MetaItemView {
    Name(Seq<char>),
    Variants(Seq<Seq<char>>),
    Other(Seq<char>),
}

impl View for MetaItem {
    type V = MetaItemView;

    open spec fn view(&self) -> MetaItemView {
        match self {
            MetaItem::Name(n) => MetaItemView::Name(n@),
            MetaItem::Variants(vs) => MetaItemView::Variants(vs@.map_values(|v: String| v@)),
            MetaItem::Other(p) => MetaItemView::Other(p@),
        }
    }
}

/// Read the entries of an attribute in order: `name` sets the name (the last
/// one counts), `variants` adds its formats, anything else is refused.  The
/// first error stops the reading.
pub open spec fn spec_read_items(items: Seq<MetaItemView>) -> Result<(Seq<char>, Seq<TemplateVariant>), AttrError>
    decreases items.len(),
{
    if items.len() == 0 {
        Ok((Seq::empty(), Seq::empty()))
    } else {
        match spec_read_items(items.drop_last()) {
            Err(e) => Err(e),
            Ok((name, vars)) => match items.last() {
                MetaItemView::Name(n) => Ok((n, vars)),
                MetaItemView::Variants(idents) => match spec_parse_variants(idents) {
                    Ok(vs) => Ok((name, vars + vs)),
                    Err(e) => Err(e),
                },
                MetaItemView::Other(_) => Err(AttrError::UnrecognizedAttribute),
            },
        }
    }
}

fn parse_variant_list(idents: &Vec<String>, out: &mut Vec<TemplateVariant>) -> (r: Result<(), AttrError>)
    ensures
        match spec_parse_variants(idents@.map_values(|v: String| v@)) {
            Ok(vs) => r is Ok && final(out)@ == old(out)@ + vs,
            Err(e) => r == Err::<(), AttrError>(e),
        },
{
    let ghost start = old(out)@;
    let ghost views = idents@.map_values(|v: String| v@);
    let mut i: usize = 0;
    while i < idents.len()
        invariant
            i <= idents@.len(),
            views == idents@.map_values(|v: String| v@),
            spec_parse_variants(views.take(i as int)) matches Ok(vs) && out@ == start + vs,
        decreases idents@.len() - i,
    {
        proof {
            assert(views.take(i + 1).drop_last() =~= views.take(i as int));
        }
        let v = match parse_variant(idents[i].as_str()) {
            Ok(v) => v,
            Err(e) => {
                proof {
                    lemma_parse_variants_error_sticks(views, i as int + 1);
                }
                return Err(e);
            },
        };
        out.push(v);
        i = i + 1;
        proof {
            assert(out@ =~= start + spec_parse_variants(views.take(i as int))->Ok_0);
        }
    }
    assert(views.take(idents@.len() as int) =~= views);
    Ok(())
}

proof fn lemma_parse_variants_error_sticks(idents: Seq<Seq<char>>, n: int)
    requires
        0 <= n <= idents.len(),
        spec_parse_variants(idents.take(n)) is Err,
    ensures
        spec_parse_variants(idents) == spec_parse_variants(idents.take(n)),
    decreases idents.len() - n,
{
    if n < idents.len() {
        assert(idents.take(n + 1).drop_last() =~= idents.take(n));
        lemma_parse_variants_error_sticks(idents, n + 1);
    } else {
        assert(idents.take(n) =~= idents);
    }
}

proof fn lemma_read_items_error_sticks(items: Seq<MetaItemView>, n: int)
    requires
        0 <= n <= items.len(),
        spec_read_items(items.take(n)) is Err,
    ensures
        spec_read_items(items) == spec_read_items(items.take(n)),
    decreases items.len() - n,
{
    if n < items.len() {
        assert(items.take(n + 1).drop_last() =~= items.take(n));
        lemma_read_items_error_sticks(items, n + 1);
    } else {
        assert(items.take(n) =~= items);
    }
}

/// Read a `multi_template` attribute.  `is_multi_template` tells whether the
/// attribute's path is `multi_template`; `items` are its entries in order.
pub fn parse_attr(is_multi_template: bool, items: &Vec<MetaItem>) -> (r: Result<MultiTemplateAttribute, AttrError>)
    ensures
        !is_multi_template ==> r == Err::<MultiTemplateAttribute, AttrError>(AttrError::ExpectedMultiTemplate),
        is_multi_template ==> match spec_read_items(items@.map_values(|m: MetaItem| m@)) {
            Ok((name, vars)) => r matches Ok(a) && a.name@ == name && a.variants@ == vars,
            Err(e) => r == Err::<MultiTemplateAttribute, AttrError>(e),
        },
{
    if !is_multi_template {
        return Err(AttrError::ExpectedMultiTemplate);
    }
    let ghost views = items@.map_values(|m: MetaItem| m@);
    let mut name = String::new();
    let mut variants: Vec<TemplateVariant> = Vec::new();
    let mut i: usize = 0;
    assert(views.take(0) =~= Seq::<MetaItemView>::empty());
    while i < items.len()
        invariant
            i <= items@.len(),
            is_multi_template,
            views == items@.map_values(|m: MetaItem| m@),
            spec_read_items(views.take(i as int)) matches Ok((n, vs)) && name@ == n && variants@ == vs,
        decreases items@.len() - i,
    {
        proof {
            assert(views.take(i + 1).drop_last() =~= views.take(i as int));
            assert(views.take(i + 1).last() == items@[i as int]@);
        }
        match &items[i] {
            MetaItem::Name(n) => {
                name = n.clone();
            },
            MetaItem::Variants(idents) => {
                let ghost before = variants@;
                match parse_variant_list(idents, &mut variants) {
                    Ok(()) => {},
                    Err(e) => {
                        proof {
                            lemma_read_items_error_sticks(views, i as int + 1);
                        }
                        return Err(e);
                    },
                }
            },
            MetaItem::Other(_) => {
                proof {
                    lemma_read_items_error_sticks(views, i as int + 1);
                }
                return Err(AttrError::UnrecognizedAttribute);
            },
        }
        i = i + 1;
    }
    assert(views.take(items@.len() as int) =~= views);
    Ok(MultiTemplateAttribute { name, variants })
}

/// The struct generated for an enum variant: `{ident}MultiTemplate`.
pub fn multi_struct_name(ident: &str) -> (r: String)
    ensures
        r@ == ident@ + "MultiTemplate"@,
{
    String::from_str(ident).concat("MultiTemplate")
}

/// The enum generated for an enum variant: `{ident}Template`.
pub fn variant_enum_name(ident: &str) -> (r: String)
    ensures
        r@ == ident@ + "Template"@,
{
    String::from_str(ident).concat("Template")
}

/// What the `MultiTemplate` derive makes for one enum variant: a struct
/// `{ident}MultiTemplate` with a `String` field per format, named by the
/// format, and an enum `{ident}Template` with a variant per format, named by
/// the format in Pascal case, each rendered from its template file.
#[derive(Clone, Debug)]
pub struct VariantTemplates {
    pub multi_struct_name: String,
    pub field_names: Vec<String>,
    pub enum_name: String,
    pub variants: Vec<(String, String)>,
}

/// `t` is what the derive makes for the variant `ident` whose attribute
/// names the templates `name` in the formats `vars`.
pub open spec fn templates_for(t: VariantTemplates, ident: Seq<char>, name: Seq<char>, vars: Seq<TemplateVariant>) -> bool {
    &&& t.multi_struct_name@ == ident + "MultiTemplate"@
    &&& t.enum_name@ == ident + "Template"@
    &&& t.field_names@.len() == vars.len()
    &&& t.variants@.len() == vars.len()
    &&& forall|i: int|
        0 <= i < vars.len() ==> {
            &&& (#[trigger] t.field_names@[i])@ == variant_ident(vars[i])
            &&& t.variants@[i].0@ == spec_pascal_case(variant_ident(vars[i]))
            &&& t.variants@[i].1@ == name + "/"@ + variant_ident(vars[i]) + "."@ + variant_ext(vars[i])
        }
}

/// What the derive makes for the enum variant `ident`, given its first
/// attribute: whether that attribute is `multi_template`, and its entries.
/// A variant without attributes is refused as missing its attribute; an
/// attribute that cannot be read is refused with its error.
pub fn plan_variant_templates(ident: &str, attr: &Option<(bool, Vec<MetaItem>)>) -> (r: Result<
    VariantTemplates,
    AttrError,
>)
    ensures
        attr is None ==> r == Err::<VariantTemplates, AttrError>(AttrError::MissingAttribute),
        attr matches Some(a) ==> (!a.0 ==> r == Err::<VariantTemplates, AttrError>(
            AttrError::ExpectedMultiTemplate,
        )),
        attr matches Some(a) ==> (a.0 ==> match spec_read_items(a.1@.map_values(|x: MetaItem| x@)) {
            Ok((name, vars)) => r matches Ok(t) && templates_for(t, ident@, name, vars),
            Err(e) => r == Err::<VariantTemplates, AttrError>(e),
        }),
{
    let (is_multi, items) = match attr {
        None => return Err(AttrError::MissingAttribute),
        Some((m, items)) => (*m, items),
    };
    let parsed = match parse_attr(is_multi, items) {
        Ok(a) => a,
        Err(e) => return Err(e),
    };
    let ghost vars = parsed.variants@;
    let mut field_names: Vec<String> = Vec::new();
    let mut variants: Vec<(String, String)> = Vec::new();
    let mut i: usize = 0;
    while i < parsed.variants.len()
        invariant
            i <= vars.len(),
            vars == parsed.variants@,
            field_names@.len() == i,
            variants@.len() == i,
            forall|j: int|
                0 <= j < i ==> {
                    &&& (#[trigger] field_names@[j])@ == variant_ident(vars[j])
                    &&& variants@[j].0@ == spec_pascal_case(variant_ident(vars[j]))
                    &&& variants@[j].1@ == parsed.name@ + "/"@ + variant_ident(vars[j]) + "."@ + variant_ext(vars[j])
                },
        decreases vars.len() - i,
    {
        let v = parsed.variants[i];
        field_names.push(String::from_str(v.ident()));
        variants.push((v.enum_variant_name(), v.template_path(parsed.name.as_str())));
        i = i + 1;
    }
    Ok(VariantTemplates {
        multi_struct_name: multi_struct_name(ident),
        field_names,
        enum_name: variant_enum_name(ident),
        variants,
    })
}

impl AttrError {
    /// The message reported for this error.
    pub fn message(self) -> (r: &'static str)
        ensures
            r@ == match self {
                AttrError::ExpectedMultiTemplate => "expected `multi_template`"@,
                AttrError::UnknownVariant => "unknown variant"@,
                AttrError::UnrecognizedAttribute => "unrecognized attribute"@,
                AttrError::MissingAttribute => "missing multi_template attribute"@,
            },
    {
        match self {
            AttrError::ExpectedMultiTemplate => "expected `multi_template`",
            AttrError::UnknownVariant => "unknown variant",
            AttrError::UnrecognizedAttribute => "unrecognized attribute",
            AttrError::MissingAttribute => "missing multi_template attribute",
        }
    }
}

} // verus!
