//! The badge: a tally laid out as a small vector scene and written out as
//! markup.

use vstd::prelude::*;
use vstd::string::*;
use svg::node::element::{Rectangle, Style, Text, Title};
use svg::{Document, Node};
use crate::decimal::{decimal, decimal_string};
use crate::tally::{lemma_tally_is_short, EntryView, ExtensionTally};

verus! {

/// The distance between the baselines of two lines of text.
pub const LINE_HEIGHT: u64 = 18;

/// One line of text of the scene.
#[derive(Debug, Clone, PartialEq, Eq)]
pub struct TextLine {
    /// The attributes of the text element, as names and values.
    pub attributes: Vec<(String, String)>,
    /// What the line says.
    pub content: String,
}

/// What a [`TextLine`] says, as mathematics.
pub struct LineView {
    pub attributes: Seq<(Seq<char>, Seq<char>)>,
    pub content: Seq<char>,
}

impl DeepView for TextLine {
    type V = LineView;

    open spec fn deep_view(&self) -> LineView {
        LineView { attributes: self.attributes.deep_view(), content: self.content@ }
    }
}

/// The scene of a badge: a canvas with a title, a style sheet, a background
/// panel and lines of text.
#[derive(Debug, Clone, PartialEq, Eq)]
pub struct Scene {
    /// The attributes of the canvas, as names and values.
    pub attributes: Vec<(String, String)>,
    pub title: String,
    pub style: String,
    /// The attributes of the panel, as names and values.
    pub panel: Vec<(String, String)>,
    pub lines: Vec<TextLine>,
}

/// What a [`Scene`] says, as mathematics.
pub struct SceneView {
    pub attributes: Seq<(Seq<char>, Seq<char>)>,
    pub title: Seq<char>,
    pub style: Seq<char>,
    pub panel: Seq<(Seq<char>, Seq<char>)>,
    pub lines: Seq<LineView>,
}

impl View for Scene {
    type V = SceneView;

    open spec fn view(&self) -> SceneView {
        SceneView {
            attributes: self.attributes.deep_view(),
            title: self.title@,
            style: self.style@,
            panel: self.panel.deep_view(),
            lines: self.lines.deep_view(),
        }
    }
}

/// The canvas: 500 wide, 700 high.
pub open spec fn canvas_attributes() -> Seq<(Seq<char>, Seq<char>)> {
    seq![
        ("viewBox"@, "0 0 500 700"@),
        ("width"@, "500"@),
        ("height"@, "700"@),
        ("xmlns"@, "http://www.w3.org/2000/svg"@),
    ]
}

/// The background panel: a dark rectangle with rounded corners.
pub open spec fn panel_attributes() -> Seq<(Seq<char>, Seq<char>)> {
    seq![
        ("x"@, "0.5"@),
        ("y"@, "0.5"@),
        ("width"@, "499"@),
        ("height"@, "99%"@),
        ("fill"@, "#2e3440"@),
        ("stroke"@, "#e4e2e2"@),
        ("rx"@, "4.5"@),
        ("stroke-opacity"@, "0"@),
    ]
}

/// The line for the entry that stands at `index` in the tally: the extension,
/// a colon, a blank and the total, 25 from the left and 18 further down than
/// the line before it.
pub open spec fn line_of(entry: EntryView, index: int) -> LineView {
    LineView {
        attributes: seq![
            ("class"@, "description"@),
            ("x"@, "25"@),
            ("y"@, decimal((LINE_HEIGHT * (index + 1)) as nat)),
        ],
        content: entry.extension + ": "@ + decimal(entry.total),
    }
}

/// The scene for a tally: one line per entry, in the order of the tally.
pub open spec fn scene_of(t: Seq<EntryView>) -> SceneView {
    SceneView {
        attributes: canvas_attributes(),
        title: "Commit Tracker"@,
        style: ".description { font: 400 13px 'Segoe UI', Ubuntu, Sans-Serif; fill: #d8dee9 }"@,
        panel: panel_attributes(),
        lines: Seq::new(t.len(), |i: int| line_of(t[i], i)),
    }
}

/// The markup that the `svg` crate writes for a scene.
pub uninterp spec fn document_markup(scene: SceneView) -> Seq<char>;

fn attribute(name: &str, value: &str) -> (pair: (String, String))
    ensures
        pair.deep_view() == (name@, value@),
{
    (String::from_str(name), String::from_str(value))
}

fn canvas() -> (attributes: Vec<(String, String)>)
    ensures
        attributes.deep_view() == canvas_attributes(),
{
    let mut attributes: Vec<(String, String)> = Vec::new();
    attributes.push(attribute("viewBox", "0 0 500 700"));
    attributes.push(attribute("width", "500"));
    attributes.push(attribute("height", "700"));
    attributes.push(attribute("xmlns", "http://www.w3.org/2000/svg"));
    attributes
}

fn panel() -> (attributes: Vec<(String, String)>)
    ensures
        attributes.deep_view() == panel_attributes(),
{
    let mut attributes: Vec<(String, String)> = Vec::new();
    attributes.push(attribute("x", "0.5"));
    attributes.push(attribute("y", "0.5"));
    attributes.push(attribute("width", "499"));
    attributes.push(attribute("height", "99%"));
    attributes.push(attribute("fill", "#2e3440"));
    attributes.push(attribute("stroke", "#e4e2e2"));
    attributes.push(attribute("rx", "4.5"));
    attributes.push(attribute("stroke-opacity", "0"));
    attributes
}

fn line(extension: &str, total: u64, index: usize) -> (text: TextLine)
    requires
        index < 1000,
    ensures
        text.deep_view() == line_of(
            EntryView { extension: extension@, total: total as nat },
            index as int,
        ),
{
    let y: u64 = LINE_HEIGHT * (index as u64 + 1);
    let mut attributes: Vec<(String, String)> = Vec::new();
    attributes.push(attribute("class", "description"));
    attributes.push(attribute("x", "25"));
    attributes.push((String::from_str("y"), decimal_string(y)));
    let mut content = String::from_str(extension);
    content.append(": ");
    content.append(decimal_string(total).as_str());
    let text = TextLine { attributes, content };
    assert(text.deep_view().attributes =~= line_of(
        EntryView { extension: extension@, total: total as nat },
        index as int,
    ).attributes);
    text
}

/// Lays a tally out as a scene.
pub fn layout(tally: &ExtensionTally) -> (scene: Scene)
    requires
        tally.wf(),
    ensures
        scene@ == scene_of(tally@),
{
    proof {
        lemma_tally_is_short(tally@);
    }
    let mut lines: Vec<TextLine> = Vec::new();
    let n: usize = tally.len();
    let mut i: usize = 0;
    while i < n
        invariant
            i <= n,
            n == tally@.len(),
            n <= 6,
            lines.len() == i,
            forall|j: int| 0 <= j < i ==> (#[trigger] lines[j]).deep_view() == line_of(tally@[j], j),
        decreases n - i,
    {
        lines.push(line(tally.extension_at(i), tally.total_at(i), i));
        i += 1;
    }
    let scene = Scene {
        attributes: canvas(),
        title: String::from_str("Commit Tracker"),
        style: String::from_str(
            ".description { font: 400 13px 'Segoe UI', Ubuntu, Sans-Serif; fill: #d8dee9 }",
        ),
        panel: panel(),
        lines,
    };
    assert(scene@.lines =~= scene_of(tally@).lines);
    scene
}

/// Writes a scene out as markup.
///
/// This is `svg`'s work: a `Document` is filled with the canvas attributes, a
/// `Title`, a `Style`, a `Rectangle` with the panel attributes and one `Text`
/// per line, and `to_string` is called on it. The contract is taken on
/// trust. It claims only that the markup depends on the scene alone: `svg`
/// writes attributes sorted by name and children in the order in which they
/// were added.
#[verifier::external_body]
fn serialize(scene: Scene) -> (markup: String)
    ensures
        markup@ == document_markup(scene@),
{
    let mut document = Document::new();
    for (name, value) in scene.attributes { document.assign(name, value); }
    document.append(Title::new(scene.title));
    document.append(Style::new(scene.style));
    let mut panel = Rectangle::new();
    for (name, value) in scene.panel { panel.assign(name, value); }
    document.append(panel);
    for line in scene.lines {
        let mut text = Text::new(line.content);
        for (name, value) in line.attributes { text.assign(name, value); }
        document.append(text);
    }
    document.to_string()
}

/// Draws the badge for a tally.
pub fn render(tally: &ExtensionTally) -> (markup: String)
    requires
        tally.wf(),
    ensures
        markup@ == document_markup(scene_of(tally@)),
{
    serialize(layout(tally))
}

} // verus!
