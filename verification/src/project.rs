//! The projector: applies the field selection to a record, so that every
//! unselected attribute is entirely absent rather than empty.

use vstd::prelude::*;

use crate::media::Output;
use crate::media::OutputV;
use crate::options::FieldSelection;

verus! {

/// A record after projection: each attribute present iff it was selected.
pub struct FormattedOutput {
    pub id: Option<String>,
    pub url: Option<String>,
    pub type_: Option<String>,
    pub title: Option<String>,
    pub description: Option<String>,
}

/// Ghost image of a `FormattedOutput`.
pub struct FormattedOutputV {
    pub id: Option<Seq<char>>,
    pub url: Option<Seq<char>>,
    pub type_: Option<Seq<char>>,
    pub title: Option<Seq<char>>,
    pub description: Option<Seq<char>>,
}

impl View for FormattedOutput {
    type V = FormattedOutputV;

    open spec fn view(&self) -> FormattedOutputV {
        FormattedOutputV {
            id: self.id.deep_view(),
            url: self.url.deep_view(),
            type_: self.type_.deep_view(),
            title: self.title.deep_view(),
            description: self.description.deep_view(),
        }
    }
}

impl DeepView for FormattedOutput {
    type V = FormattedOutputV;

    open spec fn deep_view(&self) -> FormattedOutputV {
        self.view()
    }
}

/// The projection of one record under a selection: a field carries the
/// record's value iff its selection bit is set, and is absent otherwise.
pub open spec fn spec_project(o: OutputV, sel: FieldSelection) -> FormattedOutputV {
    FormattedOutputV {
        id: if sel.id {
            Some(o.id)
        } else {
            None
        },
        url: if sel.url {
            Some(o.url)
        } else {
            None
        },
        type_: if sel.type_ {
            Some(o.type_)
        } else {
            None
        },
        title: if sel.title {
            Some(o.title)
        } else {
            None
        },
        description: if sel.description {
            Some(o.description)
        } else {
            None
        },
    }
}

/// Projects a whole sequence of records, one `FormattedOutput` per
/// `Output`, in order.
pub open spec fn spec_project_all(os: Seq<OutputV>, sel: FieldSelection) -> Seq<FormattedOutputV> {
    os.map_values(|o: OutputV| spec_project(o, sel))
}

/// Projects one record onto the selected fields.
pub fn project(output: Output, selection: &FieldSelection) -> (r: FormattedOutput)
    ensures
        r@ == spec_project(output@, *selection),
{
    FormattedOutput {
        id: if selection.id {
            Some(output.id)
        } else {
            None
        },
        url: if selection.url {
            Some(output.url)
        } else {
            None
        },
        type_: if selection.type_ {
            Some(output.type_)
        } else {
            None
        },
        title: if selection.title {
            Some(output.title)
        } else {
            None
        },
        description: if selection.description {
            Some(output.description)
        } else {
            None
        },
    }
}

/// Projects every record onto the selected fields, keeping the order.
pub fn convert_to_formatted_outputs(selection: &FieldSelection, outputs: Vec<Output>) -> (r: Vec<
    FormattedOutput,
>)
    ensures
        r.deep_view() == spec_project_all(outputs.deep_view(), *selection),
{
    let ghost ovs = outputs.deep_view();
    let rest = outputs;
    let n = rest.len();
    proof {
        assert(ovs.len() == n);
    }
    let mut formatted: Vec<FormattedOutput> = Vec::new();
    for i in 0..n
        invariant
            n == rest.len(),
            ovs == rest.deep_view(),
            formatted.deep_view() =~= spec_project_all(ovs.take(i as int), *selection),
    {
        let o = Output {
            id: rest[i].id.clone(),
            url: rest[i].url.clone(),
            type_: rest[i].type_.clone(),
            title: rest[i].title.clone(),
            description: rest[i].description.clone(),
        };
        proof {
            assert(o.deep_view() == ovs[i as int]);
        }
        formatted.push(project(o, selection));
        proof {
            assert(spec_project_all(ovs.take(i + 1), *selection) =~= spec_project_all(
                ovs.take(i as int),
                *selection,
            ).push(spec_project(ovs[i as int], *selection)));
        }
    }
    proof {
        assert(ovs.take(n as int) =~= ovs);
    }
    formatted
}

/// A field of the schema, used to speak of all five attributes uniformly.
#[derive(Clone, Copy, Debug, PartialEq, Eq, Structural)]
pub enum Field {
    Id,
    Url,
    Type,
    Title,
    Description,
}

/// Whether a selection selects a given field.
pub open spec fn selected(sel: FieldSelection, f: Field) -> bool {
    match f {
        Field::Id => sel.id,
        Field::Url => sel.url,
        Field::Type => sel.type_,
        Field::Title => sel.title,
        Field::Description => sel.description,
    }
}

/// Whether a projected record carries a given field.
pub open spec fn has_field(rec: FormattedOutputV, f: Field) -> bool {
    match f {
        Field::Id => rec.id is Some,
        Field::Url => rec.url is Some,
        Field::Type => rec.type_ is Some,
        Field::Title => rec.title is Some,
        Field::Description => rec.description is Some,
    }
}

/// A projected record carries a field precisely when that field is
/// selected, whatever the record's contents.
pub proof fn lemma_projection_presence(o: OutputV, sel: FieldSelection, f: Field)
    ensures
        has_field(spec_project(o, sel), f) == selected(sel, f),
{
}

/// Toggling a single selection bit changes the presence of exactly that
/// field, in every record: all other fields keep their presence and value.
pub proof fn lemma_projection_toggle(o: OutputV, s1: FieldSelection, s2: FieldSelection, g: Field)
    requires
        selected(s2, g) == !selected(s1, g),
        forall|f: Field| f != g ==> selected(s2, f) == selected(s1, f),
    ensures
        has_field(spec_project(o, s2), g) == !has_field(spec_project(o, s1), g),
        forall|f: Field|
            f != g ==> has_field(spec_project(o, s2), f) == has_field(spec_project(o, s1), f),
{
    assert forall|f: Field|
        f != g implies has_field(spec_project(o, s2), f) == has_field(
        spec_project(o, s1),
        f,
    ) by {
        assert(selected(s2, f) == selected(s1, f));
    }
}

} // verus!
