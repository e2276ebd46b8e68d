//! Pure state of the diff view format selector: the fixed list of offered
//! formats, the selected index, and the label under which each format is
//! shown. The surrounding picker widget drives this state and renders it.

use vstd::prelude::*;

verus! {

/// How a diff is rendered in the diff view.
#[derive(Debug, Clone, Copy, PartialEq, Eq, Structural)]
pub enum DiffViewFormat {
    Unified,
    AdditionsOnly,
    DeletionsOnly,
}

/// The formats the selector offers, in the order they are listed.
pub open spec fn all_formats() -> Seq<DiffViewFormat> {
    seq![DiffViewFormat::Unified, DiffViewFormat::AdditionsOnly, DiffViewFormat::DeletionsOnly]
}

/// The position of a format in the offered list.
pub open spec fn format_position(f: DiffViewFormat) -> int {
    match f {
        DiffViewFormat::Unified => 0,
        DiffViewFormat::AdditionsOnly => 1,
        DiffViewFormat::DeletionsOnly => 2,
    }
}

/// The label under which a format is listed.
pub open spec fn format_label_spec(f: DiffViewFormat) -> Seq<char> {
    match f {
        DiffViewFormat::Unified => "Unified"@,
        DiffViewFormat::AdditionsOnly => "Additions Only"@,
        DiffViewFormat::DeletionsOnly => "Deletions Only"@,
    }
}

/// The label under which a format is listed.
pub fn format_label(f: DiffViewFormat) -> (r: &'static str)
    ensures
        r@ == format_label_spec(f),
{
    match f {
        DiffViewFormat::Unified => "Unified",
        DiffViewFormat::AdditionsOnly => "Additions Only",
        DiffViewFormat::DeletionsOnly => "Deletions Only",
    }
}

/// The selector's state: the offered formats and which one is selected.
#[derive(Debug)]
pub struct DiffViewFormatSelector {
    formats: Vec<DiffViewFormat>,
    selected_index: usize,
}

impl DiffViewFormatSelector {
    /// The formats this selector offers, in order.
    pub closed spec fn formats_spec(self) -> Seq<DiffViewFormat> {
        self.formats@
    }

    /// The index of the currently selected format.
    pub closed spec fn selected_spec(self) -> int {
        self.selected_index as int
    }

    #[verifier::type_invariant]
    spec fn wf(self) -> bool {
        self.formats@ == all_formats() && self.selected_index < 3
    }

    /// A selector listing every format, with the given current format
    /// selected initially.
    pub fn new(current: DiffViewFormat) -> (r: Self)
        ensures
            r.formats_spec() == all_formats(),
            r.selected_spec() == format_position(current),
    {
        let mut formats: Vec<DiffViewFormat> = Vec::new();
        formats.push(DiffViewFormat::Unified);
        formats.push(DiffViewFormat::AdditionsOnly);
        formats.push(DiffViewFormat::DeletionsOnly);
        let selected_index: usize = match current {
            DiffViewFormat::Unified => 0,
            DiffViewFormat::AdditionsOnly => 1,
            DiffViewFormat::DeletionsOnly => 2,
        };
        proof {
            assert(formats@ =~= all_formats());
        }
        DiffViewFormatSelector { formats, selected_index }
    }

    /// The text shown while the picker is open.
    pub fn placeholder_text() -> (r: &'static str)
        ensures
            r@ == "Select Diff View Format"@,
    {
        "Select Diff View Format"
    }

    /// How many entries the picker lists.
    pub fn match_count(&self) -> (r: usize)
        ensures
            r as int == self.formats_spec().len(),
    {
        proof {
            use_type_invariant(self);
        }
        self.formats.len()
    }

    /// The index of the currently selected format.
    pub fn selected_index(&self) -> (r: usize)
        ensures
            r as int == self.selected_spec(),
    {
        self.selected_index
    }

    /// Select the entry at `ix`, clamped to the end of the list.
    pub fn set_selected_index(&mut self, ix: usize)
        ensures
            final(self).formats_spec() == old(self).formats_spec(),
            final(self).selected_spec() == (if (ix as int) < all_formats().len() - 1 {
                ix as int
            } else {
                all_formats().len() - 1
            }),
    {
        proof {
            use_type_invariant(&*self);
        }
        let max_ix = self.formats.len() - 1;
        self.selected_index = if ix < max_ix {
            ix
        } else {
            max_ix
        };
    }

    /// The format that confirming the selection applies.
    pub fn confirm(&self) -> (r: DiffViewFormat)
        ensures
            r == self.formats_spec()[self.selected_spec()],
    {
        proof {
            use_type_invariant(self);
        }
        self.formats[self.selected_index]
    }

    /// The label for the entry at `ix`, or `None` past the end of the list.
    pub fn match_label(&self, ix: usize) -> (r: Option<&'static str>)
        ensures
            (ix as int) < self.formats_spec().len() ==> (r matches Some(l) && l@
                == format_label_spec(self.formats_spec()[ix as int])),
            ix as int >= self.formats_spec().len() ==> r is None,
    {
        proof {
            use_type_invariant(self);
        }
        if ix < self.formats.len() {
            Some(format_label(self.formats[ix]))
        } else {
            None
        }
    }
}

} // verus!
