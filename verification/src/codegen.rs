//! Synthesis of the generated source text: a struct with one typed field
//! per named widget, a constructor that loads the markup and binds each
//! field by its identifier, optionally a lazily initialized thread-local
//! instance, and the module file that gathers the generated items.

use vstd::prelude::*;
use vstd::string::StrSliceExecFns;
use vstd::string::StringExecFns;

use crate::events::extract_objects;
use crate::events::read_ui_events;
use crate::events::spec_extract_objects;
use crate::events::ui_events_of;
use crate::names::strip_gtk;
use crate::names::class_ident;

verus! {

/// `s` with every quote and backslash escaped, so that it can stand between
/// the quotes of a string literal.
pub open spec fn spec_escape(s: Seq<char>) -> Seq<char>
    decreases s.len(),
{
    if s.len() == 0 {
        s
    } else {
        (if s[0] == '"' {
            "\\\""@
        } else if s[0] == '\\' {
            "\\\\"@
        } else {
            seq![s[0]]
        }) + spec_escape(s.drop_first())
    }
}

/// The string literal that denotes `s`.
pub open spec fn spec_str_lit(s: Seq<char>) -> Seq<char> {
    "\""@ + spec_escape(s) + "\""@
}

/// The field declaration of each named widget, in order: the identifier as
/// the field name, and the widget's toolkit type as the field type.
pub open spec fn spec_field_lines(objs: Seq<(Seq<char>, Seq<char>)>) -> Seq<char>
    decreases objs.len(),
{
    if objs.len() == 0 {
        Seq::empty()
    } else {
        "    pub "@ + objs[0].0 + ": gtk::"@ + strip_gtk(objs[0].1) + ",\n"@ + spec_field_lines(
            objs.drop_first(),
        )
    }
}

/// The constructor line of each named widget, in order: the field is bound
/// by looking its identifier up in the loaded markup.
pub open spec fn spec_ctor_lines(objs: Seq<(Seq<char>, Seq<char>)>) -> Seq<char>
    decreases objs.len(),
{
    if objs.len() == 0 {
        Seq::empty()
    } else {
        "            "@ + objs[0].0 + ": gtk::prelude::BuilderExtManual::object(&builder, "@
            + spec_str_lit(objs[0].0) + ").unwrap(),\n"@ + spec_ctor_lines(objs.drop_first())
    }
}

/// The text of the lazily initialized thread-local instance: a `get` that
/// builds the struct once per thread and hands out shared pointers to it.
pub open spec fn spec_static_block(name: Seq<char>) -> Seq<char> {
    "    thread_local! {\n        static OBJECTS: std::sync::Mutex<Option<std::rc::Rc<"@ + name
        + ">>> = std::sync::Mutex::new(None);\n    }\n\n    pub fn get() -> std::rc::Rc<Self> {\n        Self::OBJECTS.with(|objects| {\n            let mut objects = objects.lock().unwrap();\n            if objects.is_none() {\n                objects.replace(std::rc::Rc::new(Self::new()));\n            }\n            objects.as_ref().unwrap().clone()\n        })\n    }\n\n"@
}

/// The whole generated text for one markup file: the struct named `name`
/// with one field per extracted widget, and its constructor, which loads
/// the markup embedded from `path` and binds every field.
pub open spec fn spec_bind_code(
    name: Seq<char>,
    objs: Seq<(Seq<char>, Seq<char>)>,
    path: Seq<char>,
    static_value: bool,
) -> Seq<char> {
    "#[allow(dead_code)]\npub struct "@ + name + " {\n"@ + spec_field_lines(objs) + "}\n\nimpl "@
        + name + " {\n"@ + (if static_value {
        spec_static_block(name)
    } else {
        Seq::<char>::empty()
    }) + "    pub fn new() -> Self {\n        let builder = gtk::Builder::from_string(include_str!("@
        + spec_str_lit(path) + "));\n        Self {\n"@ + spec_ctor_lines(objs)
        + "        }\n    }\n}\n"@
}

/// `s` with every quote and backslash escaped.
pub fn escape(s: &str) -> (r: String)
    ensures
        r@ == spec_escape(s@),
{
    let n = s.unicode_len();
    let mut out = String::new();
    let mut i: usize = 0;
    proof {
        assert(s@.skip(0) =~= s@);
        assert(out@ + spec_escape(s@) =~= spec_escape(s@));
    }
    while i < n
        invariant
            n == s@.len(),
            i <= n,
            out@ + spec_escape(s@.skip(i as int)) == spec_escape(s@),
        decreases n - i,
    {
        let c = s.get_char(i);
        proof {
            assert(s@.skip(i as int)[0] == s@[i as int]);
            assert(s@.skip(i as int).drop_first() =~= s@.skip(i as int + 1));
        }
        if c == '"' {
            out.append("\\\"");
        } else if c == '\\' {
            out.append("\\\\");
        } else {
            let piece = s.substring_char(i, i + 1);
            out.append(piece);
            proof {
                assert(piece@ =~= seq![s@[i as int]]);
            }
        }
        proof {
            assert(out@ + spec_escape(s@.skip(i as int + 1)) =~= spec_escape(s@));
        }
        i = i + 1;
    }
    proof {
        assert(s@.skip(n as int) =~= Seq::<char>::empty());
    }
    out
}

/// The string literal that denotes `s`.
pub fn str_lit(s: &str) -> (r: String)
    ensures
        r@ == spec_str_lit(s@),
{
    let mut out = String::from_str("\"");
    let e = escape(s);
    out.append(e.as_str());
    out.append("\"");
    proof {
        assert(out@ =~= spec_str_lit(s@));
    }
    out
}

/// The field declarations of the extracted widgets.
fn field_lines(objs: &Vec<(String, String)>) -> (r: String)
    ensures
        r@ == spec_field_lines(objs.deep_view()),
{
    let n = objs.len();
    let mut out = String::new();
    let mut i: usize = 0;
    proof {
        assert(objs.deep_view().skip(0) =~= objs.deep_view());
        assert(out@ + spec_field_lines(objs.deep_view()) =~= spec_field_lines(objs.deep_view()));
    }
    while i < n
        invariant
            n == objs.len(),
            i <= n,
            out@ + spec_field_lines(objs.deep_view().skip(i as int)) == spec_field_lines(
                objs.deep_view(),
            ),
        decreases n - i,
    {
        proof {
            assert(objs.deep_view().skip(i as int)[0] == objs.deep_view()[i as int]);
            assert(objs.deep_view()[i as int] == (objs@[i as int].0@, objs@[i as int].1@));
            assert(objs.deep_view().skip(i as int).drop_first() =~= objs.deep_view().skip(
                i as int + 1,
            ));
        }
        out.append("    pub ");
        out.append(objs[i].0.as_str());
        out.append(": gtk::");
        let ty = class_ident(objs[i].1.as_str());
        out.append(ty.as_str());
        out.append(",\n");
        proof {
            assert(out@ + spec_field_lines(objs.deep_view().skip(i as int + 1))
                =~= spec_field_lines(objs.deep_view()));
        }
        i = i + 1;
    }
    proof {
        assert(objs.deep_view().skip(n as int) =~= Seq::<(Seq<char>, Seq<char>)>::empty());
    }
    out
}

/// The constructor lines of the extracted widgets.
fn ctor_lines(objs: &Vec<(String, String)>) -> (r: String)
    ensures
        r@ == spec_ctor_lines(objs.deep_view()),
{
    let n = objs.len();
    let mut out = String::new();
    let mut i: usize = 0;
    proof {
        assert(objs.deep_view().skip(0) =~= objs.deep_view());
        assert(out@ + spec_ctor_lines(objs.deep_view()) =~= spec_ctor_lines(objs.deep_view()));
    }
    while i < n
        invariant
            n == objs.len(),
            i <= n,
            out@ + spec_ctor_lines(objs.deep_view().skip(i as int)) == spec_ctor_lines(
                objs.deep_view(),
            ),
        decreases n - i,
    {
        proof {
            assert(objs.deep_view().skip(i as int)[0] == objs.deep_view()[i as int]);
            assert(objs.deep_view()[i as int] == (objs@[i as int].0@, objs@[i as int].1@));
            assert(objs.deep_view().skip(i as int).drop_first() =~= objs.deep_view().skip(
                i as int + 1,
            ));
        }
        out.append("            ");
        out.append(objs[i].0.as_str());
        out.append(": gtk::prelude::BuilderExtManual::object(&builder, ");
        let lit = str_lit(objs[i].0.as_str());
        out.append(lit.as_str());
        out.append(").unwrap(),\n");
        proof {
            assert(out@ + spec_ctor_lines(objs.deep_view().skip(i as int + 1)) =~= spec_ctor_lines(
                objs.deep_view(),
            ));
        }
        i = i + 1;
    }
    proof {
        assert(objs.deep_view().skip(n as int) =~= Seq::<(Seq<char>, Seq<char>)>::empty());
    }
    out
}

/// The text of the lazily initialized thread-local instance.
fn static_block(name: &str) -> (r: String)
    ensures
        r@ == spec_static_block(name@),
{
    let mut out = String::from_str(
        "    thread_local! {\n        static OBJECTS: std::sync::Mutex<Option<std::rc::Rc<",
    );
    out.append(name);
    out.append(
        ">>> = std::sync::Mutex::new(None);\n    }\n\n    pub fn get() -> std::rc::Rc<Self> {\n        Self::OBJECTS.with(|objects| {\n            let mut objects = objects.lock().unwrap();\n            if objects.is_none() {\n                objects.replace(std::rc::Rc::new(Self::new()));\n            }\n            objects.as_ref().unwrap().clone()\n        })\n    }\n\n",
    );
    proof {
        assert(out@ =~= spec_static_block(name@));
    }
    out
}

/// Generate the binding text for one markup file: parse `markup`, extract
/// the named widgets, and synthesize the struct named `name` together with
/// its constructor; with `static_value`, also the thread-local instance.
pub fn generate_bind(name: &str, markup: &[u8], ui_file_path: &str, static_value: bool) -> (r:
    String)
    ensures
        r@ == spec_bind_code(
            name@,
            spec_extract_objects(ui_events_of(markup@)),
            ui_file_path@,
            static_value,
        ),
{
    let events = read_ui_events(markup);
    let objects = extract_objects(&events);
    let mut out = String::from_str("#[allow(dead_code)]\npub struct ");
    out.append(name);
    out.append(" {\n");
    let fields = field_lines(&objects);
    out.append(fields.as_str());
    out.append("}\n\nimpl ");
    out.append(name);
    out.append(" {\n");
    if static_value {
        let block = static_block(name);
        out.append(block.as_str());
    }
    out.append(
        "    pub fn new() -> Self {\n        let builder = gtk::Builder::from_string(include_str!(",
    );
    let lit = str_lit(ui_file_path);
    out.append(lit.as_str());
    out.append("));\n        Self {\n");
    let ctors = ctor_lines(&objects);
    out.append(ctors.as_str());
    out.append("        }\n    }\n}\n");
    proof {
        assert(out@ =~= spec_bind_code(
            name@,
            spec_extract_objects(ui_events_of(markup@)),
            ui_file_path@,
            static_value,
        ));
    }
    out
}

/// The declaration of each child module, in order.
pub open spec fn spec_mod_lines(mods: Seq<Seq<char>>) -> Seq<char>
    decreases mods.len(),
{
    if mods.len() == 0 {
        Seq::empty()
    } else {
        "pub mod "@ + mods[0] + ";\n"@ + spec_mod_lines(mods.drop_first())
    }
}

/// The given texts, one after another.
pub open spec fn spec_concat_all(parts: Seq<Seq<char>>) -> Seq<char>
    decreases parts.len(),
{
    if parts.len() == 0 {
        Seq::empty()
    } else {
        parts[0] + spec_concat_all(parts.drop_first())
    }
}

/// The text of a directory's module file: the head text, the declaration
/// of each child module that holds markup, and the binding text generated
/// for each markup file of the directory. A directory with neither child
/// modules nor markup files gets no module file at all.
pub open spec fn spec_mod_source(
    mods: Seq<Seq<char>>,
    binds: Seq<Seq<char>>,
    head: Seq<char>,
) -> Option<Seq<char>> {
    if mods.len() == 0 && binds.len() == 0 {
        None
    } else {
        Some(head + spec_mod_lines(mods) + spec_concat_all(binds))
    }
}

/// Assemble the text of a directory's module file, or `None` for a
/// directory that needs none.
pub fn generate_mod_source(modules: &Vec<String>, binds: &Vec<String>, head: &str) -> (r: Option<
    String,
>)
    ensures
        r.deep_view() == spec_mod_source(modules.deep_view(), binds.deep_view(), head@),
{
    if modules.len() == 0 && binds.len() == 0 {
        return None;
    }
    let mut out = String::from_str(head);
    let nm = modules.len();
    let mut i: usize = 0;
    proof {
        assert(modules.deep_view().skip(0) =~= modules.deep_view());
        assert(out@ + spec_mod_lines(modules.deep_view()) =~= head@ + spec_mod_lines(
            modules.deep_view(),
        ));
    }
    while i < nm
        invariant
            nm == modules.len(),
            i <= nm,
            out@ + spec_mod_lines(modules.deep_view().skip(i as int)) == head@ + spec_mod_lines(
                modules.deep_view(),
            ),
        decreases nm - i,
    {
        proof {
            assert(modules.deep_view().skip(i as int)[0] == modules.deep_view()[i as int]);
            assert(modules.deep_view()[i as int] == modules@[i as int]@);
            assert(modules.deep_view().skip(i as int).drop_first() =~= modules.deep_view().skip(
                i as int + 1,
            ));
        }
        out.append("pub mod ");
        out.append(modules[i].as_str());
        out.append(";\n");
        proof {
            assert(out@ + spec_mod_lines(modules.deep_view().skip(i as int + 1)) =~= head@
                + spec_mod_lines(modules.deep_view()));
        }
        i = i + 1;
    }
    proof {
        assert(modules.deep_view().skip(nm as int) =~= Seq::<Seq<char>>::empty());
    }
    let nb = binds.len();
    let mut j: usize = 0;
    proof {
        assert(binds.deep_view().skip(0) =~= binds.deep_view());
    }
    while j < nb
        invariant
            nb == binds.len(),
            j <= nb,
            out@ + spec_concat_all(binds.deep_view().skip(j as int)) == head@ + spec_mod_lines(
                modules.deep_view(),
            ) + spec_concat_all(binds.deep_view()),
        decreases nb - j,
    {
        proof {
            assert(binds.deep_view().skip(j as int)[0] == binds.deep_view()[j as int]);
            assert(binds.deep_view()[j as int] == binds@[j as int]@);
            assert(binds.deep_view().skip(j as int).drop_first() =~= binds.deep_view().skip(
                j as int + 1,
            ));
        }
        out.append(binds[j].as_str());
        proof {
            assert(out@ + spec_concat_all(binds.deep_view().skip(j as int + 1)) =~= head@
                + spec_mod_lines(modules.deep_view()) + spec_concat_all(binds.deep_view()));
        }
        j = j + 1;
    }
    proof {
        assert(binds.deep_view().skip(nb as int) =~= Seq::<Seq<char>>::empty());
        assert(out@ =~= head@ + spec_mod_lines(modules.deep_view()) + spec_concat_all(
            binds.deep_view(),
        ));
    }
    Some(out)
}

} // verus!
