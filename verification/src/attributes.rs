//! The attributes that configure an embedded folder: `folder`, `prefix`,
//! `include` and `exclude`, read from the attributes of the type that the
//! folder is embedded for.

use vstd::prelude::*;

verus! {

/// One attribute of the type, as far as the configuration reads it: its
/// path when that path is a single identifier, its value when it is written
/// `name = "string literal"`, and its value when it is written
/// `name = true` or `name = false`.
pub struct AttributeArg {
    pub ident: Option<String>,
    pub str_value: Option<String>,
    pub bool_value: Option<bool>,
}

/// What an attribute holds.
pub struct AttributeArgView {
    pub ident: Option<Seq<char>>,
    pub str_value: Option<Seq<char>>,
    pub bool_value: Option<bool>,
}

impl View for AttributeArg {
    type V = AttributeArgView;

    open spec fn view(&self) -> AttributeArgView {
        AttributeArgView {
            ident: crate::file::opt_string_view(self.ident),
            str_value: crate::file::opt_string_view(self.str_value),
            bool_value: self.bool_value,
        }
    }
}

/// The views of a list of attributes.
pub open spec fn arg_views(args: Seq<AttributeArg>) -> Seq<AttributeArgView> {
    args.map_values(|a: AttributeArg| a@)
}

/// The string values of all `name = "value"` attributes called `name`, in
/// order.
pub open spec fn attribute_values(args: Seq<AttributeArgView>, name: Seq<char>) -> Seq<Seq<char>>
    decreases args.len(),
{
    if args.len() == 0 {
        seq![]
    } else {
        let before = attribute_values(args.drop_last(), name);
        let a = args.last();
        if a.ident == Some(name) && a.str_value is Some {
            before.push(a.str_value->0)
        } else {
            before
        }
    }
}

/// Finds all values of the `name = "value"` attributes called `attr_name`.
pub fn find_attribute_values(args: &Vec<AttributeArg>, attr_name: &str) -> (r: Vec<String>)
    ensures
        crate::patterns::string_views(r@) == attribute_values(arg_views(args@), attr_name@),
{
    let ghost all = arg_views(args@);
    let name = String::from_str(attr_name);
    let mut r: Vec<String> = Vec::new();
    let mut i: usize = 0;
    while i < args.len()
        invariant
            i <= args@.len(),
            all == arg_views(args@),
            name@ == attr_name@,
            crate::patterns::string_views(r@) == attribute_values(all.take(i as int), attr_name@),
        decreases args@.len() - i,
    {
        let ghost before = r@;
        proof {
            let t = all.take(i + 1);
            assert(t.drop_last() =~= all.take(i as int));
            assert(t.last() == all[i as int]);
        }
        let a = &args[i];
        let named = match &a.ident {
            Some(id) => id.eq(&name),
            None => false,
        };
        if named {
            match &a.str_value {
                Some(v) => {
                    r.push(v.clone());
                    assert(crate::patterns::string_views(r@) =~= crate::patterns::string_views(before).push(v@));
                },
                None => {},
            }
        }
        i = i + 1;
    }
    assert(all.take(i as int) =~= all);
    r
}

/// The value of the first attribute called `name`: `Some` when that
/// attribute is written `name = true` or `name = false`, `None` when it is
/// written otherwise or when there is no such attribute.
pub open spec fn bool_attribute(args: Seq<AttributeArgView>, name: Seq<char>) -> Option<bool>
    decreases args.len(),
{
    if args.len() == 0 {
        None
    } else if args[0].ident == Some(name) {
        args[0].bool_value
    } else {
        bool_attribute(args.drop_first(), name)
    }
}

/// Finds the boolean value of the first attribute called `attr_name`.
pub fn find_bool_attribute(args: &Vec<AttributeArg>, attr_name: &str) -> (r: Option<bool>)
    ensures
        r == bool_attribute(arg_views(args@), attr_name@),
{
    let ghost all = arg_views(args@);
    let name = String::from_str(attr_name);
    let mut i: usize = 0;
    assert(all.skip(0) =~= all);
    while i < args.len()
        invariant
            i <= args@.len(),
            all == arg_views(args@),
            name@ == attr_name@,
            bool_attribute(all, attr_name@) == bool_attribute(all.skip(i as int), attr_name@),
        decreases args@.len() - i,
    {
        assert(all.skip(i as int)[0] == all[i as int]);
        assert(all.skip(i as int).drop_first() =~= all.skip(i + 1));
        let named = match &args[i].ident {
            Some(id) => id.eq(&name),
            None => false,
        };
        if named {
            return args[i].bool_value;
        }
        i = i + 1;
    }
    None
}

/// Why the attributes cannot configure an embedded folder.
#[derive(Debug, PartialEq, Eq, Structural)]
pub enum AttributeError {
    /// The type is not a unit struct.
    NotUnitStruct,
    /// There is not exactly one `folder` attribute; the number found.
    FolderCount(usize),
    /// `include` or `exclude` is used while glob filtering is switched off.
    IncludeExcludeDisabled,
}

/// The configuration of an embedded folder.
pub struct EmbedAttributes {
    pub folder: String,
    pub prefix: Option<String>,
    pub includes: Vec<String>,
    pub excludes: Vec<String>,
    /// A folder that does not exist is embedded as an empty folder.
    pub allow_missing: bool,
}

/// What a configuration holds.
pub struct EmbedAttributesView {
    pub folder: Seq<char>,
    pub prefix: Option<Seq<char>>,
    pub includes: Seq<Seq<char>>,
    pub excludes: Seq<Seq<char>>,
    pub allow_missing: bool,
}

impl View for EmbedAttributes {
    type V = EmbedAttributesView;

    open spec fn view(&self) -> EmbedAttributesView {
        EmbedAttributesView {
            folder: self.folder@,
            prefix: crate::file::opt_string_view(self.prefix),
            includes: crate::patterns::string_views(self.includes@),
            excludes: crate::patterns::string_views(self.excludes@),
            allow_missing: self.allow_missing,
        }
    }
}

/// The configuration that the attributes give: `Err` for a type that is not a
/// unit struct, then for a number of `folder` values other than one, then
/// for `include` or `exclude` values while filtering is off; else the folder,
/// the first `prefix` value if any, all `include` and `exclude` values, and
/// whether `allow_missing = true` is the first `allow_missing` attribute.
pub open spec fn configuration(
    is_unit_struct: bool,
    args: Seq<AttributeArgView>,
    filtering_enabled: bool,
) -> Result<EmbedAttributesView, AttributeError> {
    let folders = attribute_values(args, "folder"@);
    let prefixes = attribute_values(args, "prefix"@);
    let includes = attribute_values(args, "include"@);
    let excludes = attribute_values(args, "exclude"@);
    if !is_unit_struct {
        Err(AttributeError::NotUnitStruct)
    } else if folders.len() != 1 {
        Err(AttributeError::FolderCount(folders.len() as usize))
    } else if !filtering_enabled && (includes.len() != 0 || excludes.len() != 0) {
        Err(AttributeError::IncludeExcludeDisabled)
    } else {
        Ok(
            EmbedAttributesView {
                folder: folders[0],
                prefix: if prefixes.len() == 0 {
                    None
                } else {
                    Some(prefixes[0])
                },
                includes: includes,
                excludes: excludes,
                allow_missing: bool_attribute(args, "allow_missing"@) == Some(true),
            },
        )
    }
}

/// With glob filtering switched off, no `include` or `exclude` value is
/// accepted: a configuration is only given when there are none, and a
/// unit struct with one folder and any such value is refused with
/// `IncludeExcludeDisabled`.
pub proof fn lemma_filtering_off_refuses_patterns(
    is_unit_struct: bool,
    args: Seq<AttributeArgView>,
    filtering_enabled: bool,
)
    ensures
        configuration(is_unit_struct, args, filtering_enabled) matches Ok(c) ==> filtering_enabled || (
        attribute_values(args, "include"@).len() == 0 && attribute_values(args, "exclude"@).len()
            == 0),
        configuration(is_unit_struct, args, filtering_enabled) matches Ok(c) ==> c.includes
            == attribute_values(args, "include"@) && c.excludes == attribute_values(args, "exclude"@),
        is_unit_struct && attribute_values(args, "folder"@).len() == 1 && !filtering_enabled && (
        attribute_values(args, "include"@).len() != 0 || attribute_values(args, "exclude"@).len()
            != 0) ==> configuration(is_unit_struct, args, filtering_enabled) == Err::<
            EmbedAttributesView,
            AttributeError,
        >(AttributeError::IncludeExcludeDisabled),
{
}

/// Reads the configuration of an embedded folder from the attributes of the
/// type it is derived for (see `configuration`). `filtering_enabled` says
/// whether `include` and `exclude` may be used.
pub fn embed_attributes(
    is_unit_struct: bool,
    args: &Vec<AttributeArg>,
    filtering_enabled: bool,
) -> (r: Result<EmbedAttributes, AttributeError>)
    ensures
        match r {
            Ok(a) => configuration(is_unit_struct, arg_views(args@), filtering_enabled) == Ok::<
                _,
                AttributeError,
            >(a@),
            Err(e) => configuration(is_unit_struct, arg_views(args@), filtering_enabled) == Err::<
                EmbedAttributesView,
                _,
            >(e),
        },
{
    if !is_unit_struct {
        return Err(AttributeError::NotUnitStruct);
    }
    let mut folders = find_attribute_values(args, "folder");
    if folders.len() != 1 {
        return Err(AttributeError::FolderCount(folders.len()));
    }
    let folder = folders.remove(0);
    let prefixes = find_attribute_values(args, "prefix");
    let prefix = if prefixes.len() == 0 {
        None
    } else {
        Some(prefixes[0].clone())
    };
    let includes = find_attribute_values(args, "include");
    let excludes = find_attribute_values(args, "exclude");
    if !filtering_enabled && (includes.len() != 0 || excludes.len() != 0) {
        return Err(AttributeError::IncludeExcludeDisabled);
    }
    let allow_missing = match find_bool_attribute(args, "allow_missing") {
        Some(true) => true,
        _ => false,
    };
    Ok(EmbedAttributes { folder, prefix, includes, excludes, allow_missing })
}

} // verus!
