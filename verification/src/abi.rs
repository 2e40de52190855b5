//! The schema model: type aliases, structs, variants and the metadata of
//! actions and tables, with the mathematical view of each.
use vstd::prelude::*;
use crate::text::{clone_strings, index_of, index_of_from, str_eq, string_views};

verus! {

/// An alias: `new_type_name` stands for `ty`.
#[derive(Debug, PartialEq, Eq)]
pub struct AbiTypeDef {
    pub new_type_name: String,
    pub ty: String,
}

/// The mathematical model of [`AbiTypeDef`].
pub ghost struct AbiTypeDefView {
    pub new_type_name: Seq<char>,
    pub ty: Seq<char>,
}

impl View for AbiTypeDef {
    type V = AbiTypeDefView;

    open spec fn view(&self) -> AbiTypeDefView {
        AbiTypeDefView { new_type_name: self.new_type_name@, ty: self.ty@ }
    }
}

impl Clone for AbiTypeDef {
    fn clone(&self) -> (r: Self)
        ensures
            r@ == self@,
    {
        AbiTypeDef { new_type_name: self.new_type_name.clone(), ty: self.ty.clone() }
    }
}

/// A field of a struct: its name and the name of its type, modifiers included.
#[derive(Debug, PartialEq, Eq)]
pub struct AbiField {
    pub name: String,
    pub ty: String,
}

/// The mathematical model of [`AbiField`].
pub ghost struct AbiFieldView {
    pub name: Seq<char>,
    pub ty: Seq<char>,
}

impl View for AbiField {
    type V = AbiFieldView;

    open spec fn view(&self) -> AbiFieldView {
        AbiFieldView { name: self.name@, ty: self.ty@ }
    }
}

impl Clone for AbiField {
    fn clone(&self) -> (r: Self)
        ensures
            r@ == self@,
    {
        AbiField { name: self.name.clone(), ty: self.ty.clone() }
    }
}

/// The views of a vector of fields.
pub open spec fn field_views(v: Seq<AbiField>) -> Seq<AbiFieldView> {
    v.map_values(|f: AbiField| f@)
}

/// A copy of a vector of fields.
pub fn clone_fields(v: &Vec<AbiField>) -> (r: Vec<AbiField>)
    ensures
        field_views(r@) == field_views(v@),
{
    let mut out: Vec<AbiField> = Vec::new();
    let mut i: usize = 0;
    while i < v.len()
        invariant
            0 <= i <= v.len(),
            out@.len() == i,
            forall|k: int| 0 <= k < i ==> out@[k]@ == v@[k]@,
        decreases v.len() - i,
    {
        out.push(v[i].clone());
        i += 1;
    }
    assert(field_views(out@) =~= field_views(v@));
    out
}

/// A struct: its own fields follow those of its base, if it has one.
#[derive(Debug, PartialEq, Eq)]
pub struct AbiStruct {
    pub name: String,
    pub base: Option<String>,
    pub fields: Vec<AbiField>,
}

/// The mathematical model of [`AbiStruct`].
pub ghost struct AbiStructView {
    pub name: Seq<char>,
    pub base: Option<Seq<char>>,
    pub fields: Seq<AbiFieldView>,
}

impl View for AbiStruct {
    type V = AbiStructView;

    open spec fn view(&self) -> AbiStructView {
        AbiStructView {
            name: self.name@,
            base: match self.base {
                Some(b) => Some(b@),
                None => None,
            },
            fields: field_views(self.fields@),
        }
    }
}

impl Clone for AbiStruct {
    fn clone(&self) -> (r: Self)
        ensures
            r@ == self@,
    {
        let base: Option<String> = match &self.base {
            Some(b) => Some(b.clone()),
            None => None,
        };
        AbiStruct { name: self.name.clone(), base, fields: clone_fields(&self.fields) }
    }
}

/// A tagged union: the position of a member type in `types` is its wire tag.
#[derive(Debug, PartialEq, Eq)]
pub struct AbiVariant {
    pub name: String,
    pub types: Vec<String>,
}

/// The mathematical model of [`AbiVariant`].
pub ghost struct AbiVariantView {
    pub name: Seq<char>,
    pub types: Seq<Seq<char>>,
}

impl View for AbiVariant {
    type V = AbiVariantView;

    open spec fn view(&self) -> AbiVariantView {
        AbiVariantView { name: self.name@, types: string_views(self.types@) }
    }
}

impl Clone for AbiVariant {
    fn clone(&self) -> (r: Self)
        ensures
            r@ == self@,
    {
        AbiVariant { name: self.name.clone(), types: clone_strings(&self.types) }
    }
}

/// An action of the contract and the struct that carries its parameters.
#[derive(Debug, PartialEq, Eq)]
pub struct AbiAction {
    pub name: String,
    pub ty: String,
    pub ricardian_contract: String,
}

/// The mathematical model of [`AbiAction`].
pub ghost struct AbiActionView {
    pub name: Seq<char>,
    pub ty: Seq<char>,
    pub ricardian_contract: Seq<char>,
}

impl View for AbiAction {
    type V = AbiActionView;

    open spec fn view(&self) -> AbiActionView {
        AbiActionView {
            name: self.name@,
            ty: self.ty@,
            ricardian_contract: self.ricardian_contract@,
        }
    }
}

impl Clone for AbiAction {
    fn clone(&self) -> (r: Self)
        ensures
            r@ == self@,
    {
        AbiAction {
            name: self.name.clone(),
            ty: self.ty.clone(),
            ricardian_contract: self.ricardian_contract.clone(),
        }
    }
}

/// A table of the contract and the struct that its rows hold.
#[derive(Debug, PartialEq, Eq)]
pub struct AbiTable {
    pub name: String,
    pub index_type: String,
    pub key_names: Vec<String>,
    pub key_types: Vec<String>,
    pub ty: String,
}

/// The mathematical model of [`AbiTable`].
pub ghost struct AbiTableView {
    pub name: Seq<char>,
    pub index_type: Seq<char>,
    pub key_names: Seq<Seq<char>>,
    pub key_types: Seq<Seq<char>>,
    pub ty: Seq<char>,
}

impl View for AbiTable {
    type V = AbiTableView;

    open spec fn view(&self) -> AbiTableView {
        AbiTableView {
            name: self.name@,
            index_type: self.index_type@,
            key_names: string_views(self.key_names@),
            key_types: string_views(self.key_types@),
            ty: self.ty@,
        }
    }
}

impl Clone for AbiTable {
    fn clone(&self) -> (r: Self)
        ensures
            r@ == self@,
    {
        AbiTable {
            name: self.name.clone(),
            index_type: self.index_type.clone(),
            key_names: clone_strings(&self.key_names),
            key_types: clone_strings(&self.key_types),
            ty: self.ty.clone(),
        }
    }
}

/// One schema document.
#[derive(Debug, PartialEq, Eq)]
pub struct Abi {
    pub version: String,
    pub types: Vec<AbiTypeDef>,
    pub structs: Vec<AbiStruct>,
    pub variants: Vec<AbiVariant>,
    pub actions: Vec<AbiAction>,
    pub tables: Vec<AbiTable>,
}

/// The mathematical model of [`Abi`].
pub ghost struct AbiView {
    pub version: Seq<char>,
    pub types: Seq<AbiTypeDefView>,
    pub structs: Seq<AbiStructView>,
    pub variants: Seq<AbiVariantView>,
    pub actions: Seq<AbiActionView>,
    pub tables: Seq<AbiTableView>,
}

impl View for Abi {
    type V = AbiView;

    open spec fn view(&self) -> AbiView {
        AbiView {
            version: self.version@,
            types: self.types@.map_values(|t: AbiTypeDef| t@),
            structs: self.structs@.map_values(|s: AbiStruct| s@),
            variants: self.variants@.map_values(|v: AbiVariant| v@),
            actions: self.actions@.map_values(|a: AbiAction| a@),
            tables: self.tables@.map_values(|t: AbiTable| t@),
        }
    }
}

impl AbiView {
    /// The names that the aliases introduce, in declared order.
    pub open spec fn alias_names(self) -> Seq<Seq<char>> {
        self.types.map_values(|t: AbiTypeDefView| t.new_type_name)
    }

    /// The names of the structs, in declared order.
    pub open spec fn struct_names(self) -> Seq<Seq<char>> {
        self.structs.map_values(|s: AbiStructView| s.name)
    }

    /// The names of the variants, in declared order.
    pub open spec fn variant_names(self) -> Seq<Seq<char>> {
        self.variants.map_values(|v: AbiVariantView| v.name)
    }
}

impl Clone for Abi {
    fn clone(&self) -> (r: Self)
        ensures
            r@ == self@,
    {
        let mut types: Vec<AbiTypeDef> = Vec::new();
        let mut i: usize = 0;
        while i < self.types.len()
            invariant
                0 <= i <= self.types.len(),
                types@.len() == i,
                forall|k: int| 0 <= k < i ==> types@[k]@ == self.types@[k]@,
            decreases self.types.len() - i,
        {
            types.push(self.types[i].clone());
            i += 1;
        }
        let mut structs: Vec<AbiStruct> = Vec::new();
        i = 0;
        while i < self.structs.len()
            invariant
                0 <= i <= self.structs.len(),
                structs@.len() == i,
                forall|k: int| 0 <= k < i ==> structs@[k]@ == self.structs@[k]@,
            decreases self.structs.len() - i,
        {
            structs.push(self.structs[i].clone());
            i += 1;
        }
        let mut variants: Vec<AbiVariant> = Vec::new();
        i = 0;
        while i < self.variants.len()
            invariant
                0 <= i <= self.variants.len(),
                variants@.len() == i,
                forall|k: int| 0 <= k < i ==> variants@[k]@ == self.variants@[k]@,
            decreases self.variants.len() - i,
        {
            variants.push(self.variants[i].clone());
            i += 1;
        }
        let mut actions: Vec<AbiAction> = Vec::new();
        i = 0;
        while i < self.actions.len()
            invariant
                0 <= i <= self.actions.len(),
                actions@.len() == i,
                forall|k: int| 0 <= k < i ==> actions@[k]@ == self.actions@[k]@,
            decreases self.actions.len() - i,
        {
            actions.push(self.actions[i].clone());
            i += 1;
        }
        let mut tables: Vec<AbiTable> = Vec::new();
        i = 0;
        while i < self.tables.len()
            invariant
                0 <= i <= self.tables.len(),
                tables@.len() == i,
                forall|k: int| 0 <= k < i ==> tables@[k]@ == self.tables@[k]@,
            decreases self.tables.len() - i,
        {
            tables.push(self.tables[i].clone());
            i += 1;
        }
        let r = Abi { version: self.version.clone(), types, structs, variants, actions, tables };
        assert(r@.types =~= self@.types);
        assert(r@.structs =~= self@.structs);
        assert(r@.variants =~= self@.variants);
        assert(r@.actions =~= self@.actions);
        assert(r@.tables =~= self@.tables);
        r
    }
}

impl Abi {
    /// Position of the first alias that introduces `name`.
    pub fn find_alias(&self, name: &str) -> (r: Option<usize>)
        ensures
            match r {
                Some(i) => index_of(self@.alias_names(), name@) == Some(i as int) && i
                    < self.types.len(),
                None => index_of(self@.alias_names(), name@).is_none(),
            },
    {
        let ghost keys = self@.alias_names();
        let mut i: usize = 0;
        while i < self.types.len()
            invariant
                0 <= i <= self.types.len(),
                keys == self@.alias_names(),
                index_of(keys, name@) == index_of_from(keys, name@, i as int),
            decreases self.types.len() - i,
        {
            if str_eq(self.types[i].new_type_name.as_str(), name) {
                return Some(i);
            }
            i += 1;
        }
        None
    }

    /// Position of the first struct named `name`.
    pub fn find_struct(&self, name: &str) -> (r: Option<usize>)
        ensures
            match r {
                Some(i) => index_of(self@.struct_names(), name@) == Some(i as int) && i
                    < self.structs.len(),
                None => index_of(self@.struct_names(), name@).is_none(),
            },
    {
        let ghost keys = self@.struct_names();
        let mut i: usize = 0;
        while i < self.structs.len()
            invariant
                0 <= i <= self.structs.len(),
                keys == self@.struct_names(),
                index_of(keys, name@) == index_of_from(keys, name@, i as int),
            decreases self.structs.len() - i,
        {
            if str_eq(self.structs[i].name.as_str(), name) {
                return Some(i);
            }
            i += 1;
        }
        None
    }

    /// Position of the first variant named `name`.
    pub fn find_variant(&self, name: &str) -> (r: Option<usize>)
        ensures
            match r {
                Some(i) => index_of(self@.variant_names(), name@) == Some(i as int) && i
                    < self.variants.len(),
                None => index_of(self@.variant_names(), name@).is_none(),
            },
    {
        let ghost keys = self@.variant_names();
        let mut i: usize = 0;
        while i < self.variants.len()
            invariant
                0 <= i <= self.variants.len(),
                keys == self@.variant_names(),
                index_of(keys, name@) == index_of_from(keys, name@, i as int),
            decreases self.variants.len() - i,
        {
            if str_eq(self.variants[i].name.as_str(), name) {
                return Some(i);
            }
            i += 1;
        }
        None
    }
}

} // verus!
