use vstd::prelude::*;

verus! {

/// The type of a variable or of a channel's element.
#[derive(Clone, Debug)]
pub enum DataType {
    Void,
    Bool,
    Int,
    Str,
    /// A handle on a running process of the named program.
    Process(String),
}

/// What a `DataType` denotes, with the program name as a character sequence.
pub enum DataTypeView {
    Void,
    Bool,
    Int,
    Str,
    Process(Seq<char>),
}

impl View for DataType {
    type V = DataTypeView;

    open spec fn view(&self) -> DataTypeView {
        match self {
            DataType::Void => DataTypeView::Void,
            DataType::Bool => DataTypeView::Bool,
            DataType::Int => DataTypeView::Int,
            DataType::Str => DataTypeView::Str,
            DataType::Process(n) => DataTypeView::Process(n@),
        }
    }
}

/// The views of a list of datatypes.
pub open spec fn types_view(s: Seq<DataType>) -> Seq<DataTypeView> {
    s.map_values(|d: DataType| d@)
}

impl DataType {
    /// Whether two datatypes denote the same type.
    pub fn same_as(&self, other: &DataType) -> (r: bool)
        ensures
            r == (self@ == other@),
    {
        match self {
            DataType::Void => match other {
                DataType::Void => true,
                _ => false,
            },
            DataType::Bool => match other {
                DataType::Bool => true,
                _ => false,
            },
            DataType::Int => match other {
                DataType::Int => true,
                _ => false,
            },
            DataType::Str => match other {
                DataType::Str => true,
                _ => false,
            },
            DataType::Process(a) => match other {
                DataType::Process(b) => a.eq(b),
                _ => false,
            },
        }
    }
}

impl DataType {
    /// A copy of the datatype.
    pub fn duplicate(&self) -> (r: DataType)
        ensures
            r == *self,
    {
        match self {
            DataType::Void => DataType::Void,
            DataType::Bool => DataType::Bool,
            DataType::Int => DataType::Int,
            DataType::Str => DataType::Str,
            DataType::Process(n) => DataType::Process(n.clone()),
        }
    }
}

/// A copy of a list of datatypes.
pub fn copy_types(v: &Vec<DataType>) -> (r: Vec<DataType>)
    ensures
        types_view(r@) == types_view(v@),
{
    let mut r: Vec<DataType> = Vec::new();
    let mut i: usize = 0;
    while i < v.len()
        invariant
            i <= v.len(),
            r@.len() == i,
            forall|j: int| 0 <= j < i ==> r@[j]@ == v@[j]@,
        decreases v.len() - i,
    {
        r.push(v[i].duplicate());
        i = i + 1;
    }
    assert(types_view(r@) =~= types_view(v@));
    r
}

/// Whether two lists of datatypes are equal, element by element.
pub fn same_types(a: &Vec<DataType>, b: &Vec<DataType>) -> (r: bool)
    ensures
        r == (types_view(a@) == types_view(b@)),
{
    if a.len() != b.len() {
        assert(types_view(a@).len() != types_view(b@).len());
        return false;
    }
    let mut i: usize = 0;
    while i < a.len()
        invariant
            a.len() == b.len(),
            i <= a.len(),
            forall|j: int| 0 <= j < i ==> a@[j]@ == b@[j]@,
        decreases a.len() - i,
    {
        if !a[i].same_as(&b[i]) {
            assert(types_view(a@)[i as int] != types_view(b@)[i as int]);
            return false;
        }
        i = i + 1;
    }
    assert(types_view(a@) =~= types_view(b@));
    true
}

/// A runtime value.
#[derive(Clone, Debug)]
pub enum Literal {
    Null,
    Bool(bool),
    Int(i64),
    Str(String),
}

impl Literal {
    /// Truth of a value used as a condition: only `true` is true.
    pub open spec fn truth(&self) -> bool {
        match self {
            Literal::Bool(b) => *b,
            _ => false,
        }
    }

    /// A copy of the value.
    pub fn duplicate(&self) -> (r: Literal)
        ensures
            r == *self,
    {
        match self {
            Literal::Null => Literal::Null,
            Literal::Bool(b) => Literal::Bool(*b),
            Literal::Int(i) => Literal::Int(*i),
            Literal::Str(t) => Literal::Str(t.clone()),
        }
    }

    pub fn is_true(&self) -> (r: bool)
        ensures
            r == self.truth(),
    {
        match self {
            Literal::Bool(b) => *b,
            _ => false,
        }
    }
}

} // verus!
