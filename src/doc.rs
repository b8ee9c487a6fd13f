use vstd::prelude::*;

verus! {

/// What a definition is, as plain text.
pub enum DefModel {
    Class { name: Seq<char>, modifiers: Seq<char>, raw: Seq<char> },
    Field { name: Seq<char>, modifiers: Seq<char>, raw: Seq<char> },
    Method {
        name: Seq<char>,
        modifiers: Seq<char>,
        args: Option<Seq<(Seq<char>, Seq<char>)>>,
        raw: Seq<char>,
    },
    Undefined,
}

/// A node nested under a class: its comment lines, definition and package.
pub struct MemberModel {
    pub tag: Seq<Seq<char>>,
    pub def: DefModel,
    pub pkg: Seq<char>,
}

/// A documented node: comment lines, definition, package and, for a class, its members.
pub struct DocModel {
    pub tag: Seq<Seq<char>>,
    pub def: DefModel,
    pub pkg: Seq<char>,
    pub children: Seq<MemberModel>,
}

/// The text of each line, in order.
pub open spec fn lines_view(v: Seq<String>) -> Seq<Seq<char>> {
    v.map_values(|s: String| s@)
}

/// Something that is documented: the comment lines above it, what they document,
/// and the package of the file it came from.
#[derive(Debug)]
pub struct Doc {
    pub tag: Vec<String>,
    pub def: Definition,
    pub pkg: String,
}

/// What a run of comment lines documents.
#[derive(Debug)]
pub enum Definition {
    Class(ClassDef),
    Field(FieldDef),
    Method(MethodDef),
    Undefined,
}

/// A parameter of a method: its name and its type.
#[derive(Debug, Clone)]
pub struct Variable {
    pub name: String,
    pub ty: String,
}

/// A method definition.
#[derive(Debug, Clone)]
pub struct MethodDef {
    pub name: String,
    pub modifiers: String,
    pub args: Option<Vec<Variable>>,
    pub raw: String,
}

/// A field definition.
#[derive(Debug, Clone)]
pub struct FieldDef {
    pub name: String,
    pub modifiers: String,
    pub raw: String,
}

/// A class definition, with the members documented inside it.
#[derive(Debug)]
pub struct ClassDef {
    pub name: String,
    pub modifiers: String,
    pub raw: String,
    pub fields: Vec<Doc>,
}

impl Variable {
    /// The parameter as a (type, name) pair.
    pub open spec fn view(&self) -> (Seq<char>, Seq<char>) {
        (self.ty@, self.name@)
    }

    pub fn new(name: String, ty: String) -> (r: Variable)
        ensures
            r.name == name,
            r.ty == ty,
    {
        Variable { name, ty }
    }
}

/// The (type, name) pairs of a parameter list.
pub open spec fn vars_view(v: Seq<Variable>) -> Seq<(Seq<char>, Seq<char>)> {
    v.map_values(|x: Variable| x@)
}

impl MethodDef {
    pub fn new(name: String, modifiers: String, args: Option<Vec<Variable>>, raw: String) -> (r:
        MethodDef)
        ensures
            r.name == name,
            r.modifiers == modifiers,
            r.args == args,
            r.raw == raw,
    {
        MethodDef { name, modifiers, args, raw }
    }
}

impl FieldDef {
    pub fn new(name: String, modifiers: String, raw: String) -> (r: FieldDef)
        ensures
            r.name == name,
            r.modifiers == modifiers,
            r.raw == raw,
    {
        FieldDef { name, modifiers, raw }
    }
}

impl ClassDef {
    pub fn new(name: String, modifiers: String, raw: String, fields: Vec<Doc>) -> (r: ClassDef)
        ensures
            r.name == name,
            r.modifiers == modifiers,
            r.raw == raw,
            r.fields == fields,
    {
        ClassDef { name, modifiers, raw, fields }
    }

    pub fn get_name(&self) -> (r: &str)
        ensures
            r@ == self.name@,
    {
        self.name.as_str()
    }

    /// The declaration line as it stands in the source, without its trailing `{`.
    pub fn raw(&self) -> (r: &str)
        ensures
            r@ == self.raw@,
    {
        self.raw.as_str()
    }

    pub fn push_field(&mut self, f: Doc)
        ensures
            final(self).name == old(self).name,
            final(self).raw == old(self).raw,
            final(self).modifiers == old(self).modifiers,
            final(self).fields@ == old(self).fields@.push(f),
    {
        self.fields.push(f);
    }
}

impl Definition {
    pub open spec fn view(&self) -> DefModel {
        match self {
            Definition::Class(c) => DefModel::Class {
                name: c.name@,
                modifiers: c.modifiers@,
                raw: c.raw@,
            },
            Definition::Field(f) => DefModel::Field {
                name: f.name@,
                modifiers: f.modifiers@,
                raw: f.raw@,
            },
            Definition::Method(m) => DefModel::Method {
                name: m.name@,
                modifiers: m.modifiers@,
                args: match m.args {
                    Some(v) => Some(vars_view(v@)),
                    None => None,
                },
                raw: m.raw@,
            },
            Definition::Undefined => DefModel::Undefined,
        }
    }

    /// The members held by a class definition; none for any other.
    pub open spec fn children(&self) -> Seq<MemberModel> {
        match self {
            Definition::Class(c) => c.fields@.map_values(|d: Doc| d.member()),
            _ => Seq::empty(),
        }
    }
}

impl Doc {
    /// The node as a member of a class: everything but its own members.
    pub open spec fn member(&self) -> MemberModel {
        MemberModel { tag: lines_view(self.tag@), def: self.def@, pkg: self.pkg@ }
    }

    pub open spec fn view(&self) -> DocModel {
        DocModel {
            tag: lines_view(self.tag@),
            def: self.def@,
            pkg: self.pkg@,
            children: self.def.children(),
        }
    }

    /// A node of package `pkg` with no comment lines and no definition yet.
    pub fn new(pkg: String) -> (r: Doc)
        ensures
            r@ == (DocModel {
                tag: Seq::empty(),
                def: DefModel::Undefined,
                pkg: pkg@,
                children: Seq::empty(),
            }),
            r.def is Undefined,
    {
        let r = Doc { tag: Vec::new(), def: Definition::Undefined, pkg };
        assert(lines_view(r.tag@) =~= Seq::empty());
        r
    }

    /// Appends a comment line to the tag.
    pub fn push(&mut self, s: String)
        ensures
            final(self)@ == (DocModel { tag: old(self)@.tag.push(s@), ..old(self)@ }),
            final(self).def == old(self).def,
    {
        self.tag.push(s);
        proof {
            assert(lines_view(final(self).tag@) =~= lines_view(old(self).tag@).push(s@));
        }
    }

    /// Nests `f` under this node, which documents a class.
    pub fn push_field(&mut self, f: Doc)
        requires
            old(self).def is Class,
        ensures
            final(self)@ == (DocModel {
                children: old(self)@.children.push(f.member()),
                ..old(self)@
            }),
            final(self).def is Class,
            final(self).def->Class_0.fields@ == old(self).def->Class_0.fields@.push(f),
            final(self).def->Class_0.name == old(self).def->Class_0.name,
            final(self).def->Class_0.modifiers == old(self).def->Class_0.modifiers,
            final(self).def->Class_0.raw == old(self).def->Class_0.raw,
            final(self).tag == old(self).tag,
            final(self).pkg == old(self).pkg,
    {
        match &mut self.def {
            Definition::Class(c) => c.push_field(f),
            _ => {},
        }
        proof {
            let ghost a = old(self).def.children();
            assert(final(self).def.children() =~= a.push(f.member()));
        }
    }

    /// Gives the node its definition, which it did not have yet.
    pub fn set_def(&mut self, def: Definition)
        requires
            old(self).def is Undefined,
        ensures
            final(self)@ == (DocModel { def: def@, children: def.children(), ..old(self)@ }),
            final(self).def == def,
    {
        self.def = def;
    }

    pub fn is_class(&self) -> (r: bool)
        ensures
            r == (self.def is Class),
            r == (self@.def is Class),
    {
        match self.def {
            Definition::Class(_) => true,
            _ => false,
        }
    }

    /// The name of the class that the node documents; empty for any other node.
    pub fn name(&self) -> (r: &str)
        ensures
            r@ == (match self@.def {
                DefModel::Class { name, .. } => name,
                _ => Seq::empty(),
            }),
    {
        match &self.def {
            Definition::Class(c) => c.get_name(),
            _ => {
                proof {
                    reveal_strlit("");
                }
                ""
            },
        }
    }
}

} // verus!
