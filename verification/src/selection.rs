//! What to list: the caller's selection and the query criteria built from it.

use vstd::prelude::*;
use crate::error::ListError;
use crate::prefixes::{filter_default_prefixes, grant_prefixes, resolution, AuthorizedPrefix};
use crate::text::views;

verus! {

/// The kind of a catalog entry.
#[derive(Clone, Copy, Debug, PartialEq, Eq, Structural)]
pub enum CatalogType {
    Capture,
    Collection,
    Materialization,
    Test,
}

/// Selects entries by exact name and by namespace prefix.
#[derive(Clone, Debug, Default)]
pub struct NameSelector {
    pub name: Vec<String>,
    pub prefix: Vec<String>,
}

/// Narrows a listing to entries of one kind.
#[derive(Clone, Debug, Default)]
pub struct SpecTypeSelector {
    pub catalog_type: Option<CatalogType>,
}

/// Narrows a listing to entries assigned to one data plane.
#[derive(Clone, Debug, Default)]
pub struct DataPlaneSelector {
    pub data_plane_name: Option<String>,
}

/// The arguments of one listing.
#[derive(Clone, Debug, Default)]
pub struct List {
    /// Ask for the entries each entry reads from and writes to.
    pub include_flows: bool,
    /// Ask for the full model of each entry.
    pub include_models: bool,
    pub name_selector: NameSelector,
    pub type_selector: SpecTypeSelector,
    pub data_plane_selector: DataPlaneSelector,
    /// Ask for the details of each entry's last publication.
    pub include_last_publication: bool,
}

/// One independent query against the service.
#[derive(Debug)]
pub enum SelectionCriterion {
    /// Everything under a prefix, narrowed by kind and by data plane.
    PrefixAndType { prefix: String, type_filter: Option<CatalogType>, plane_filter: Option<String> },
    /// The entries with the given names.
    NameList { names: Vec<String> },
}

/// A criterion as plain values.
pub enum CriterionView {
    PrefixAndType {
        prefix: Seq<char>,
        type_filter: Option<CatalogType>,
        plane_filter: Option<Seq<char>>,
    },
    NameList { names: Seq<Seq<char>> },
}

/// The characters of an optional string.
pub open spec fn opt_view(o: Option<String>) -> Option<Seq<char>> {
    match o {
        Some(s) => Some(s@),
        None => None,
    }
}

impl View for SelectionCriterion {
    type V = CriterionView;

    open spec fn view(&self) -> CriterionView {
        match *self {
            SelectionCriterion::PrefixAndType { prefix, type_filter, plane_filter } => {
                CriterionView::PrefixAndType {
                    prefix: prefix@,
                    type_filter,
                    plane_filter: opt_view(plane_filter),
                }
            },
            SelectionCriterion::NameList { names } => CriterionView::NameList {
                names: views(names@),
            },
        }
    }
}

/// The views of a list of criteria, in the same order.
pub open spec fn criteria_views(v: Seq<SelectionCriterion>) -> Seq<CriterionView> {
    Seq::new(v.len(), |i: int| v[i]@)
}

/// The criteria of a selection: one per prefix, in the order given, each with
/// the shared filters; then one for the names, if there are any.
pub open spec fn build_criteria(
    prefixes: Seq<Seq<char>>,
    names: Seq<Seq<char>>,
    type_filter: Option<CatalogType>,
    plane_filter: Option<Seq<char>>,
) -> Seq<CriterionView> {
    let by_prefix = Seq::new(
        prefixes.len(),
        |i: int| CriterionView::PrefixAndType { prefix: prefixes[i], type_filter, plane_filter },
    );
    if names.len() > 0 {
        by_prefix.push(CriterionView::NameList { names })
    } else {
        by_prefix
    }
}

/// A copy of an optional string.
pub fn copy_optional(o: &Option<String>) -> (r: Option<String>)
    ensures
        opt_view(r) == opt_view(*o),
{
    match o {
        Some(s) => Some(s.clone()),
        None => None,
    }
}

/// A copy of a list of strings.
pub fn copy_strings(v: &Vec<String>) -> (r: Vec<String>)
    ensures
        views(r@) == views(v@),
{
    let mut r: Vec<String> = Vec::new();
    let mut i: usize = 0;
    while i < v.len()
        invariant
            i <= v.len(),
            r@.len() == i,
            forall|j: int| 0 <= j < i ==> r@[j]@ == v@[j]@,
        decreases v.len() - i,
    {
        r.push(v[i].clone());
        i += 1;
    }
    assert(views(r@) =~= views(v@));
    r
}

impl SelectionCriterion {
    /// Whether this criterion looks entries up by name.
    pub fn is_by_name(&self) -> (r: bool)
        ensures
            r == (self@ is NameList),
    {
        match self {
            SelectionCriterion::NameList { .. } => true,
            SelectionCriterion::PrefixAndType { .. } => false,
        }
    }

    /// A copy of this criterion.
    pub fn duplicate(&self) -> (r: SelectionCriterion)
        ensures
            r@ == self@,
    {
        match self {
            SelectionCriterion::PrefixAndType { prefix, type_filter, plane_filter } => {
                SelectionCriterion::PrefixAndType {
                    prefix: prefix.clone(),
                    type_filter: *type_filter,
                    plane_filter: copy_optional(plane_filter),
                }
            },
            SelectionCriterion::NameList { names } => SelectionCriterion::NameList {
                names: copy_strings(names),
            },
        }
    }
}

impl SpecTypeSelector {
    /// The one kind that the listing is narrowed to, if it is narrowed.
    pub fn get_single_type_selection(&self) -> (r: Option<CatalogType>)
        ensures
            r == self.catalog_type,
    {
        self.catalog_type
    }
}

/// The most prefixes that a listing without explicit selection may resolve to.
pub const DEFAULT_PREFIX_LIMIT: usize = 5;

impl List {
    /// Whether the caller selected nothing, so that the prefixes to list have
    /// to come from the grants.
    pub fn needs_default_prefixes(&self) -> (r: bool)
        ensures
            r == (self.name_selector.name@.len() == 0 && self.name_selector.prefix@.len() == 0),
    {
        self.name_selector.name.len() == 0 && self.name_selector.prefix.len() == 0
    }
}

/// Completes a listing that selects nothing with the default prefixes of the
/// caller's grants. A listing that selects something is returned as it is.
///
/// Fails when the grants resolve to more than `DEFAULT_PREFIX_LIMIT`
/// prefixes, and when they resolve to none.
pub fn with_default_prefixes(list: List, role_list: Vec<AuthorizedPrefix>) -> (r: Result<
    List,
    ListError,
>)
    ensures
        !(list.name_selector.name@.len() == 0 && list.name_selector.prefix@.len() == 0) ==> r
            == Ok::<List, ListError>(list),
        list.name_selector.name@.len() == 0 && list.name_selector.prefix@.len() == 0 ==> match r {
            Ok(l) => {
                &&& 0 < resolution(grant_prefixes(role_list@)).len() <= DEFAULT_PREFIX_LIMIT
                &&& views(l.name_selector.prefix@) == resolution(grant_prefixes(role_list@))
                &&& l.name_selector.name == list.name_selector.name
                &&& l.include_flows == list.include_flows
                &&& l.include_models == list.include_models
                &&& l.type_selector == list.type_selector
                &&& l.data_plane_selector == list.data_plane_selector
                &&& l.include_last_publication == list.include_last_publication
            },
            Err(e) => {
                ||| e == ListError::EmptyAccess && resolution(grant_prefixes(role_list@)).len()
                    == 0
                ||| e == (ListError::AmbiguousSelection { max: DEFAULT_PREFIX_LIMIT })
                    && resolution(grant_prefixes(role_list@)).len() > DEFAULT_PREFIX_LIMIT
            },
        },
{
    if !list.needs_default_prefixes() {
        return Ok(list);
    }
    match filter_default_prefixes(role_list, DEFAULT_PREFIX_LIMIT) {
        Ok(prefixes) => {
            if prefixes.len() == 0 {
                return Err(ListError::EmptyAccess);
            }
            let mut list = list;
            list.name_selector.prefix = prefixes;
            Ok(list)
        },
        Err(e) => Err(e),
    }
}

/// Builds the criteria of a listing, in the order in which they are queried
/// and their entries emitted: the prefixes first, as given, then the names.
pub fn to_vars(list: &List) -> (vars: Vec<SelectionCriterion>)
    ensures
        criteria_views(vars@) == build_criteria(
            views(list.name_selector.prefix@),
            views(list.name_selector.name@),
            list.type_selector.catalog_type,
            opt_view(list.data_plane_selector.data_plane_name),
        ),
{
    let catalog_type = list.type_selector.get_single_type_selection();
    let ghost prefixes = views(list.name_selector.prefix@);
    let ghost plane = opt_view(list.data_plane_selector.data_plane_name);
    let mut vars: Vec<SelectionCriterion> = Vec::new();
    let mut i: usize = 0;
    while i < list.name_selector.prefix.len()
        invariant
            i <= list.name_selector.prefix.len(),
            prefixes == views(list.name_selector.prefix@),
            plane == opt_view(list.data_plane_selector.data_plane_name),
            vars@.len() == i,
            forall|j: int|
                0 <= j < i ==> (#[trigger] vars@[j])@ == (CriterionView::PrefixAndType {
                    prefix: prefixes[j],
                    type_filter: catalog_type,
                    plane_filter: plane,
                }),
        decreases list.name_selector.prefix.len() - i,
    {
        let by = SelectionCriterion::PrefixAndType {
            prefix: list.name_selector.prefix[i].clone(),
            type_filter: catalog_type,
            plane_filter: copy_optional(&list.data_plane_selector.data_plane_name),
        };
        vars.push(by);
        i += 1;
    }
    if list.name_selector.name.len() > 0 {
        let names = copy_strings(&list.name_selector.name);
        vars.push(SelectionCriterion::NameList { names });
    }
    assert(criteria_views(vars@) =~= build_criteria(
        prefixes,
        views(list.name_selector.name@),
        catalog_type,
        plane,
    ));
    vars
}

} // verus!
