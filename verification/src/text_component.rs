//! The recursive rich-text tree a server may send as its description, and
//! the formatter that flattens it to plain text with markdown-style
//! emphasis. Only nodes tagged `Text` (or left untagged) render; every other
//! tag renders as the empty string, children included.

use crate::slp::SlpServerDescription;
use vstd::prelude::*;
use vstd::string::StringExecFns;

verus! {

/// The tag a rich-text node may carry.
#[derive(Clone, Copy, Debug, PartialEq, Eq, Structural)]
pub enum TextComponentType {
    Text,
    Translatable,
    Keybind,
    Score,
    Selector,
    Nbt,
}

/// The action of a click event. The game defines more actions than chat
/// may carry; they are kept for completeness of the data model.
#[derive(Clone, Copy, Debug, PartialEq, Eq, Structural)]
pub enum TextComponentClickAction {
    OpenUrl,
    OpenFile,
    RunCommand,
    TwitchUserInfo,
    SuggestCommand,
    ChangePage,
    CopyToClipboard,
}

/// A click event: an action and its argument.
#[derive(Debug)]
pub struct TextComponentClick {
    pub action: TextComponentClickAction,
    pub value: String,
}

/// One node of the rich-text tree: an optional tag, literal text, style
/// flags, and an ordered list of children, each either a bare string or
/// another node. Color, font, insertion and the obfuscated flag are carried
/// but have no effect on the formatted output.
#[derive(Debug)]
pub struct TextComponent {
    pub type_: Option<TextComponentType>,
    pub extra: Option<Vec<SlpServerDescription>>,
    pub text: String,
    pub color: Option<String>,
    pub bold: Option<bool>,
    pub italic: Option<bool>,
    pub underlined: Option<bool>,
    pub strikethrough: Option<bool>,
    pub obfuscated: Option<bool>,
    pub font: Option<String>,
    pub insertion: Option<String>,
}

/// True when a style flag is present and set.
pub open spec fn is_true(flag: Option<bool>) -> bool {
    flag == Some(true)
}

/// True when the node renders at all: it carries no tag, or the `Text` tag.
pub open spec fn spec_renders(c: TextComponent) -> bool {
    c.type_ is None || c.type_ == Some(TextComponentType::Text)
}

/// True when at least one wrapping style applies, so a zero-width space
/// will separate the markdown markers from whatever follows.
pub open spec fn spec_is_wrapped(c: TextComponent) -> bool {
    is_true(c.bold) || is_true(c.italic) || is_true(c.underlined) || is_true(c.strikethrough)
}

/// The node's own text with its emphasis markers: bold/italic innermost,
/// then underline, then strikethrough, and a trailing zero-width space when
/// any marker was added.
pub open spec fn spec_styled_text(c: TextComponent) -> Seq<char> {
    let em = if is_true(c.bold) && is_true(c.italic) {
        "***"@ + c.text@ + "***"@
    } else if is_true(c.bold) {
        "**"@ + c.text@ + "**"@
    } else if is_true(c.italic) {
        "*"@ + c.text@ + "*"@
    } else {
        c.text@
    };
    let un = if is_true(c.underlined) {
        "__"@ + em + "__"@
    } else {
        em
    };
    let st = if is_true(c.strikethrough) {
        "~~"@ + un + "~~"@
    } else {
        un
    };
    if spec_is_wrapped(c) {
        st + "\u{200B}"@
    } else {
        st
    }
}

/// The flat text of a node: nothing for a non-`Text` tag; otherwise the
/// styled own text followed by each child's flat text, in list order, with
/// no separators.
pub open spec fn spec_format(c: TextComponent) -> Seq<char>
    decreases c, 0int, 0int,
{
    if !spec_renders(c) {
        Seq::empty()
    } else {
        spec_styled_text(c) + match c.extra {
            Some(v) => spec_format_children(v, 0),
            None => Seq::empty(),
        }
    }
}

/// The concatenated flat text of the children from index `i` on.
pub open spec fn spec_format_children(v: Vec<SlpServerDescription>, i: int) -> Seq<char>
    decreases v, v@.len() - i, 1int,
{
    if i < 0 || i >= v@.len() {
        Seq::empty()
    } else {
        spec_format_desc(v@[i]) + spec_format_children(v, i + 1)
    }
}

/// The flat text of one child: a bare string is used verbatim, a node is
/// formatted recursively.
pub open spec fn spec_format_desc(d: SlpServerDescription) -> Seq<char>
    decreases d, 0int, 0int,
{
    match d {
        SlpServerDescription::Simple(s) => s@,
        SlpServerDescription::Complex(c) => spec_format(c),
    }
}

/// A node tagged with any type other than `Text` formats to the empty
/// string, whatever text, styling, or children it carries.
pub proof fn lemma_non_text_formats_empty(c: TextComponent)
    requires
        c.type_ is Some,
        c.type_ != Some(TextComponentType::Text),
    ensures
        spec_format(c) == Seq::<char>::empty(),
{
}

fn flag_set(flag: &Option<bool>) -> (r: bool)
    ensures
        r == is_true(*flag),
{
    match flag {
        Some(b) => *b,
        None => false,
    }
}

fn wrap_str(inner: String, marker: &str) -> (r: String)
    ensures
        r@ == marker@ + inner@ + marker@,
{
    let mut out = String::from_str(marker);
    out.append(inner.as_str());
    out.append(marker);
    out
}

impl TextComponent {
    /// Formats the node to flat text, exactly as [`spec_format`] states.
    pub fn format_string(&self) -> (r: String)
        ensures
            r@ == spec_format(*self),
        decreases *self, 0int, 0int,
    {
        match &self.type_ {
            Some(TextComponentType::Text) => {},
            None => {},
            _ => {
                return String::new();
            },
        }
        let mut res = self.text.clone();
        let mut wrapped = false;
        let bold = flag_set(&self.bold);
        let italic = flag_set(&self.italic);
        if bold && italic {
            res = wrap_str(res, "***");
            wrapped = true;
        } else if bold {
            res = wrap_str(res, "**");
            wrapped = true;
        } else if italic {
            res = wrap_str(res, "*");
            wrapped = true;
        }
        if flag_set(&self.underlined) {
            res = wrap_str(res, "__");
            wrapped = true;
        }
        if flag_set(&self.strikethrough) {
            res = wrap_str(res, "~~");
            wrapped = true;
        }
        if wrapped {
            res.append("\u{200B}");
        }
        assert(res@ == spec_styled_text(*self));
        if let Some(childs) = &self.extra {
            let mut i: usize = 0;
            while i < childs.len()
                invariant
                    i <= childs@.len(),
                    self.extra == Some(*childs),
                    spec_format(*self) == spec_styled_text(*self) + spec_format_children(
                        *childs,
                        0,
                    ),
                    spec_styled_text(*self) + spec_format_children(*childs, 0) =~= res@
                        + spec_format_children(*childs, i as int),
                decreases childs@.len() - i,
            {
                let child_string = match &childs[i] {
                    SlpServerDescription::Simple(x) => x.clone(),
                    SlpServerDescription::Complex(x) => {
                        proof {
                            broadcast use vstd::std_specs::vec::axiom_vec_index_decreases;

                            assert(decreases_to!(*self => self.extra->Some_0));
                            assert(decreases_to!(*childs => childs@[i as int]));
                        }
                        x.format_string()
                    },
                };
                res.append(child_string.as_str());
                proof {
                    assert(spec_format_children(*childs, i as int) == spec_format_desc(
                        childs@[i as int],
                    ) + spec_format_children(*childs, i as int + 1));
                }
                i = i + 1;
            }
            assert(res@ =~= spec_format(*self));
            res
        } else {
            assert(res@ =~= spec_format(*self));
            res
        }
    }
}

/// The flat text of one description value: a bare string verbatim, a
/// rich-text tree through [`TextComponent::format_string`].
pub fn format_description(d: &SlpServerDescription) -> (r: String)
    ensures
        r@ == spec_format_desc(*d),
{
    match d {
        SlpServerDescription::Simple(x) => x.clone(),
        SlpServerDescription::Complex(x) => x.format_string(),
    }
}

} // verus!
