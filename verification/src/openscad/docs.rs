//! The documentation of the built-in modules, and how it is rendered.

use vstd::prelude::*;
use vstd::string::*;

verus! {

/// The documentation of a module.
pub struct ModuleDocs {
    pub description: String,
    pub arguments: Vec<ModuleDocsArguments>,
    pub examples: Vec<String>,
}

/// The documentation of one argument of a module.
pub struct ModuleDocsArguments {
    pub name: String,
    pub description: String,
    pub default: Option<String>,
}

/// What a [`ModuleDocsArguments`] holds.
pub struct ArgumentDocs {
    pub name: Seq<char>,
    pub description: Seq<char>,
    pub default: Option<Seq<char>>,
}

/// What a [`ModuleDocs`] holds.
pub struct Docs {
    pub description: Seq<char>,
    pub arguments: Seq<ArgumentDocs>,
    pub examples: Seq<Seq<char>>,
}

impl View for ModuleDocsArguments {
    type V = ArgumentDocs;

    open spec fn view(&self) -> ArgumentDocs {
        ArgumentDocs {
            name: self.name@,
            description: self.description@,
            default: match self.default {
                Some(text) => Some(text@),
                None => None,
            },
        }
    }
}

impl View for ModuleDocs {
    type V = Docs;

    open spec fn view(&self) -> Docs {
        Docs {
            description: self.description@,
            arguments: self.arguments@.map_values(|a: ModuleDocsArguments| a@),
            examples: self.examples@.map_values(|e: String| e@),
        }
    }
}

/// The line of the list of arguments for one argument.
pub open spec fn argument_line(argument: ArgumentDocs) -> Seq<char> {
    "\n- `"@ + argument.name + "` "@ + argument.description + match argument.default {
        Some(default) => "Default: "@ + default,
        None => Seq::<char>::empty(),
    }
}

/// The lines of the list of arguments, one behind the other.
pub open spec fn argument_lines(arguments: Seq<ArgumentDocs>) -> Seq<char>
    decreases arguments.len(),
{
    if arguments.len() == 0 {
        Seq::<char>::empty()
    } else {
        argument_lines(arguments.drop_last()) + argument_line(arguments.last())
    }
}

/// The examples, each on a line of its own.
pub open spec fn example_lines(examples: Seq<Seq<char>>) -> Seq<char>
    decreases examples.len(),
{
    if examples.len() == 0 {
        Seq::<char>::empty()
    } else {
        example_lines(examples.drop_last()) + "\n"@ + examples.last()
    }
}

/// The markdown text for `docs`: the description; the list of arguments
/// under its heading, where there are any; the examples in a fenced block
/// under their heading, where there are any.
pub open spec fn markdown(docs: Docs) -> Seq<char> {
    "**Description:** "@ + docs.description + (if docs.arguments.len() > 0 {
        "\n\n### Arguments:"@ + argument_lines(docs.arguments)
    } else {
        Seq::<char>::empty()
    }) + (if docs.examples.len() > 0 {
        "\n\n### Examples:\n```"@ + example_lines(docs.examples) + "\n```"@
    } else {
        Seq::<char>::empty()
    })
}

impl Clone for ModuleDocsArguments {
    fn clone(&self) -> (copy: Self)
        ensures
            copy@ == self@,
    {
        ModuleDocsArguments {
            name: self.name.clone(),
            description: self.description.clone(),
            default: match &self.default {
                Some(text) => Some(text.clone()),
                None => None,
            },
        }
    }
}

impl Clone for ModuleDocs {
    fn clone(&self) -> (copy: Self)
        ensures
            copy@ == self@,
    {
        let mut arguments: Vec<ModuleDocsArguments> = Vec::new();
        let mut i: usize = 0;
        while i < self.arguments.len()
            invariant
                i <= self.arguments.len(),
                arguments@.len() == i,
                forall|k: int| 0 <= k < i ==> (#[trigger] arguments@[k])@ == self.arguments@[k]@,
            decreases self.arguments.len() - i,
        {
            arguments.push(self.arguments[i].clone());
            i += 1;
        }
        let mut examples: Vec<String> = Vec::new();
        let mut j: usize = 0;
        while j < self.examples.len()
            invariant
                j <= self.examples.len(),
                examples@.len() == j,
                forall|k: int| 0 <= k < j ==> (#[trigger] examples@[k])@ == self.examples@[k]@,
            decreases self.examples.len() - j,
        {
            examples.push(self.examples[j].clone());
            j += 1;
        }
        let copy = ModuleDocs { description: self.description.clone(), arguments, examples };
        assert(copy@.arguments =~= self@.arguments);
        assert(copy@.examples =~= self@.examples);
        copy
    }
}

impl ModuleDocs {
    /// The documentation as markdown.
    pub fn to_markdown(&self) -> (text: String)
        ensures
            text@ == markdown(self@),
    {
        let mut result = String::from_str("**Description:** ");
        result.append(self.description.as_str());
        let ghost head = result@;

        if !self.arguments.is_empty() {
            result.append("\n\n### Arguments:");
            let mut i: usize = 0;
            while i < self.arguments.len()
                invariant
                    i <= self.arguments.len(),
                    result@ == head + "\n\n### Arguments:"@ + argument_lines(
                        self@.arguments.take(i as int),
                    ),
                decreases self.arguments.len() - i,
            {
                let argument = &self.arguments[i];
                let ghost before = result@;
                result.append("\n- `");
                result.append(argument.name.as_str());
                result.append("` ");
                result.append(argument.description.as_str());
                match &argument.default {
                    Some(default) => {
                        result.append("Default: ");
                        result.append(default.as_str());
                    },
                    None => {},
                }
                proof {
                    let taken = self@.arguments.take(i + 1);
                    assert(taken.drop_last() =~= self@.arguments.take(i as int));
                    assert(taken.last() == argument@);
                    assert(result@ =~= before + argument_line(argument@));
                }
                i += 1;
            }
            assert(self@.arguments.take(i as int) =~= self@.arguments);
        }
        let ghost middle = result@;

        if !self.examples.is_empty() {
            result.append("\n\n### Examples:\n```");
            let mut j: usize = 0;
            while j < self.examples.len()
                invariant
                    j <= self.examples.len(),
                    result@ == middle + "\n\n### Examples:\n```"@ + example_lines(
                        self@.examples.take(j as int),
                    ),
                decreases self.examples.len() - j,
            {
                let ghost before = result@;
                result.append("\n");
                result.append(self.examples[j].as_str());
                proof {
                    let taken = self@.examples.take(j + 1);
                    assert(taken.drop_last() =~= self@.examples.take(j as int));
                    assert(taken.last() == self.examples@[j as int]@);
                    assert(result@ =~= before + "\n"@ + self.examples@[j as int]@);
                }
                j += 1;
            }
            assert(self@.examples.take(j as int) =~= self@.examples);
            result.append("\n```");
        }
        assert(result@ =~= markdown(self@));
        result
    }
}

/// What is documented of `translate`.
pub open spec fn translate_docs() -> Docs {
    Docs {
        description: "Translates (moves) its child elements along the specified vector."@,
        arguments: seq![
            ArgumentDocs {
                name: "v"@,
                description: "vector to translate shape along"@,
                default: None,
            },
        ],
        examples: seq!["translate(v = [x, y, z]) { ... }"@],
    }
}

/// What is documented of `circle`.
pub open spec fn circle_docs() -> Docs {
    Docs {
        description: "Creates a circle at the origin. All parameters, except r, must be named."@,
        arguments: seq![
            ArgumentDocs {
                name: "r"@,
                description: "circle radius. r name is the only one optional with circle."@,
                default: None,
            },
            ArgumentDocs { name: "d"@, description: "circle diameter."@, default: None },
        ],
        examples: seq!["circle(10);"@, "circle(r=10);"@, "circle(d=20);"@],
    }
}

/// What is documented of the module called `module_id`, if it is built in
/// and documented.
pub open spec fn builtin_docs(module_id: Seq<char>) -> Option<Docs> {
    if module_id == "translate"@ {
        Some(translate_docs())
    } else if module_id == "circle"@ {
        Some(circle_docs())
    } else {
        None
    }
}

/// The documentation of the built-in module called `module_id`, if it has
/// any.
pub fn get_builtin_module_docs(module_id: &str) -> (docs: Option<ModuleDocs>)
    ensures
        match docs {
            Some(d) => builtin_docs(module_id@) == Some(d@),
            None => builtin_docs(module_id@) is None,
        },
{
    if module_id.eq("translate") {
        let docs = ModuleDocs {
            description: String::from_str(
                "Translates (moves) its child elements along the specified vector.",
            ),
            arguments: vec![
                ModuleDocsArguments {
                    name: String::from_str("v"),
                    description: String::from_str("vector to translate shape along"),
                    default: None,
                },
            ],
            examples: vec![String::from_str("translate(v = [x, y, z]) { ... }")],
        };
        assert(docs@.arguments =~= translate_docs().arguments);
        assert(docs@.examples =~= translate_docs().examples);
        Some(docs)
    } else if module_id.eq("circle") {
        let docs = ModuleDocs {
            description: String::from_str(
                "Creates a circle at the origin. All parameters, except r, must be named.",
            ),
            arguments: vec![
                ModuleDocsArguments {
                    name: String::from_str("r"),
                    description: String::from_str(
                        "circle radius. r name is the only one optional with circle.",
                    ),
                    default: None,
                },
                ModuleDocsArguments {
                    name: String::from_str("d"),
                    description: String::from_str("circle diameter."),
                    default: None,
                },
            ],
            examples: vec![
                String::from_str("circle(10);"),
                String::from_str("circle(r=10);"),
                String::from_str("circle(d=20);"),
            ],
        };
        assert(docs@.arguments =~= circle_docs().arguments);
        assert(docs@.examples =~= circle_docs().examples);
        Some(docs)
    } else {
        None
    }
}

} // verus!
