//! What the game looks like: for a state of the game and an area of the
//! terminal, the bordered box, the glyphs and the lines of text to paint.
//! Nothing here paints; a scene is plain data for a terminal back-end.

use crate::enemies::EnemyView;
use crate::game::{App, GameState, GameView};
use crate::laser::LaserView;
use crate::{NUM_COLS, NUM_ROWS};
use ratatui::layout::{Constraint, Direction, Layout, Rect};
use ratatui::widgets::{Block, Borders};
use vstd::prelude::*;
use vstd::string::StringExecFns;

verus! {

/// The colours the game paints with.
#[derive(Clone, Copy, Debug, PartialEq, Eq)]
pub enum Color {
    White,
    Green,
    Yellow,
    Red,
}

/// A rectangle of terminal cells.
#[derive(Clone, Copy, Debug, PartialEq, Eq)]
pub struct Pane {
    pub x: u16,
    pub y: u16,
    pub width: u16,
    pub height: u16,
}

/// One character painted into one terminal cell.
#[derive(Clone, Copy, Debug, PartialEq, Eq)]
pub struct Glyph {
    pub col: u16,
    pub row: u16,
    pub symbol: char,
    pub color: Color,
}

/// The smaller of two numbers.
pub open spec fn lesser(a: int, b: int) -> int {
    if a <= b {
        a
    } else {
        b
    }
}

/// A cell number kept within the range of cell numbers.
pub open spec fn capped(n: int) -> int {
    lesser(n, u16::MAX as int)
}

impl Pane {
    /// Whether the pane's far edges lie within the range of cell numbers.
    pub open spec fn fits(self) -> bool {
        self.x + self.width <= u16::MAX && self.y + self.height <= u16::MAX
    }

    /// The area inside a border one cell wide drawn round the pane. A pane
    /// too small for the border has an empty inside, which does not start
    /// beyond the pane's far edges.
    pub open spec fn inset(self) -> Pane {
        Pane {
            x: lesser(capped(self.x + 1), capped(self.x + self.width)) as u16,
            y: lesser(capped(self.y + 1), capped(self.y + self.height)) as u16,
            width: if self.width >= 2 {
                (self.width - 2) as u16
            } else {
                0
            },
            height: if self.height >= 2 {
                (self.height - 2) as u16
            } else {
                0
            },
        }
    }

    /// Whether the game can be painted into the pane: the pane fits, and
    /// the row for the score, the last one inside the border, exists.
    pub open spec fn holds_game(self) -> bool {
        self.fits() && self.inset().y + self.inset().height >= 1
    }

    /// Whether the game can be painted into the pane.
    pub fn can_hold_game(&self) -> (ok: bool)
        ensures
            ok == self.holds_game(),
    {
        self.x as u32 + self.width as u32 <= u16::MAX as u32 && self.y as u32 + self.height as u32
            <= u16::MAX as u32 && !(self.y == 0 && self.height == 0)
    }
}

/// The offset, in terminal cells, of board cell number `cell` along an axis
/// on which `cells` board cells share `size` terminal cells.
pub open spec fn scaled(cell: int, size: int, cells: int) -> int {
    cell * size / cells
}

/// The terminal cell in which the board cell `(x, y)` is painted when the
/// board is stretched over `pane`, or `None` if that lies outside the pane.
pub open spec fn placed(x: int, y: int, pane: Pane) -> Option<(u16, u16)> {
    let dx = scaled(x, pane.width as int, NUM_COLS as int);
    let dy = scaled(y, pane.height as int, NUM_ROWS as int);
    if 0 <= dx < pane.width && 0 <= dy < pane.height {
        Some(((pane.x + dx) as u16, (pane.y + dy) as u16))
    } else {
        None
    }
}

/// The glyph for something in board cell `(x, y)`: one glyph, or none if the
/// cell is clipped.
pub open spec fn sprite(x: int, y: int, pane: Pane, symbol: char, color: Color) -> Seq<Glyph> {
    match placed(x, y, pane) {
        Some((col, row)) => seq![Glyph { col, row, symbol, color }],
        None => Seq::empty(),
    }
}

/// The glyphs of the first `n` shots: `*` for an explosion, `|` for a
/// travelling laser, in yellow.
pub open spec fn shot_sprites(shots: Seq<LaserView>, n: int, pane: Pane) -> Seq<Glyph>
    decreases n,
{
    if n <= 0 {
        Seq::empty()
    } else {
        let shot = shots[n - 1];
        shot_sprites(shots, n - 1, pane) + sprite(
            shot.x,
            shot.y,
            pane,
            if shot.exploded {
                '*'
            } else {
                '|'
            },
            Color::Yellow,
        )
    }
}

/// The glyphs of the first `n` invaders: a red `V` for each living one.
pub open spec fn fleet_sprites(army: Seq<EnemyView>, n: int, pane: Pane) -> Seq<Glyph>
    decreases n,
{
    if n <= 0 {
        Seq::empty()
    } else {
        let enemy = army[n - 1];
        fleet_sprites(army, n - 1, pane) + if enemy.alive {
            sprite(enemy.x, enemy.y, pane, 'V', Color::Red)
        } else {
            Seq::empty()
        }
    }
}

/// The glyphs of a running game, in the order in which they are painted:
/// the ship, a green `H`, then the shots, then the fleet.
pub open spec fn game_glyphs(g: GameView, pane: Pane) -> Seq<Glyph> {
    sprite(g.player.x, g.player.y, pane, 'H', Color::Green) + shot_sprites(
        g.player.shots,
        g.player.shots.len() as int,
        pane,
    ) + fleet_sprites(g.fleet.army, g.fleet.army.len() as int, pane)
}

/// Whether a glyph lies inside a pane.
pub open spec fn inside(glyph: Glyph, pane: Pane) -> bool {
    pane.x <= glyph.col < pane.x + pane.width && pane.y <= glyph.row < pane.y + pane.height
}

/// A cell of the board is never clipped by a pane that has any room, and
/// the first column and row of the board go to the first of the pane.
pub proof fn lemma_board_cells_are_placed(x: int, y: int, pane: Pane)
    requires
        0 <= x < NUM_COLS,
        0 <= y < NUM_ROWS,
        pane.width > 0,
        pane.height > 0,
        pane.fits(),
    ensures
        placed(x, y, pane) is Some,
        placed(0, 0, pane) == Some((pane.x, pane.y)),
{
    let (w, h) = (pane.width as int, pane.height as int);
    assert(0 <= x * w < NUM_COLS * w && 0 <= y * h < NUM_ROWS * h) by (nonlinear_arith)
        requires
            0 <= x < NUM_COLS,
            0 <= y < NUM_ROWS,
            w > 0,
            h > 0,
    ;
}

/// A sprite lies inside the pane.
proof fn lemma_sprite_inside(x: int, y: int, pane: Pane, symbol: char, color: Color)
    requires
        pane.fits(),
    ensures
        forall|i: int|
            0 <= i < sprite(x, y, pane, symbol, color).len() ==> inside(
                #[trigger] sprite(x, y, pane, symbol, color)[i],
                pane,
            ),
{
}

/// Every glyph of a game lies inside the pane that the board is stretched
/// over: what would fall outside is clipped.
pub proof fn lemma_glyphs_inside(g: GameView, pane: Pane)
    requires
        pane.fits(),
    ensures
        forall|i: int|
            0 <= i < game_glyphs(g, pane).len() ==> inside(
                #[trigger] game_glyphs(g, pane)[i],
                pane,
            ),
{
    let ship = sprite(g.player.x, g.player.y, pane, 'H', Color::Green);
    let shots = shot_sprites(g.player.shots, g.player.shots.len() as int, pane);
    let fleet = fleet_sprites(g.fleet.army, g.fleet.army.len() as int, pane);
    lemma_sprite_inside(g.player.x, g.player.y, pane, 'H', Color::Green);
    lemma_shot_sprites_inside(g.player.shots, g.player.shots.len() as int, pane);
    lemma_fleet_sprites_inside(g.fleet.army, g.fleet.army.len() as int, pane);
    assert forall|i: int| 0 <= i < (ship + shots + fleet).len() implies inside(
        #[trigger] (ship + shots + fleet)[i],
        pane,
    ) by {
        if i < ship.len() {
            assert((ship + shots + fleet)[i] == ship[i]);
        } else if i < ship.len() + shots.len() {
            assert((ship + shots + fleet)[i] == shots[i - ship.len()]);
        } else {
            assert((ship + shots + fleet)[i] == fleet[i - ship.len() - shots.len()]);
        }
    }
}

/// The glyphs of the first `n` shots lie inside the pane.
proof fn lemma_shot_sprites_inside(shots: Seq<LaserView>, n: int, pane: Pane)
    requires
        pane.fits(),
    ensures
        forall|i: int|
            0 <= i < shot_sprites(shots, n, pane).len() ==> inside(
                #[trigger] shot_sprites(shots, n, pane)[i],
                pane,
            ),
    decreases n,
{
    if n > 0 {
        let shot = shots[n - 1];
        let symbol = if shot.exploded {
            '*'
        } else {
            '|'
        };
        let before = shot_sprites(shots, n - 1, pane);
        let last = sprite(shot.x, shot.y, pane, symbol, Color::Yellow);
        lemma_shot_sprites_inside(shots, n - 1, pane);
        lemma_sprite_inside(shot.x, shot.y, pane, symbol, Color::Yellow);
        assert forall|i: int| 0 <= i < (before + last).len() implies inside(
            #[trigger] (before + last)[i],
            pane,
        ) by {
            if i >= before.len() {
                assert((before + last)[i] == last[i - before.len()]);
            }
        }
    }
}

/// The glyphs of the first `n` invaders lie inside the pane.
proof fn lemma_fleet_sprites_inside(army: Seq<EnemyView>, n: int, pane: Pane)
    requires
        pane.fits(),
    ensures
        forall|i: int|
            0 <= i < fleet_sprites(army, n, pane).len() ==> inside(
                #[trigger] fleet_sprites(army, n, pane)[i],
                pane,
            ),
    decreases n,
{
    if n > 0 {
        let enemy = army[n - 1];
        let before = fleet_sprites(army, n - 1, pane);
        let last = sprite(enemy.x, enemy.y, pane, 'V', Color::Red);
        lemma_fleet_sprites_inside(army, n - 1, pane);
        lemma_sprite_inside(enemy.x, enemy.y, pane, 'V', Color::Red);
        assert forall|i: int| 0 <= i < (before + last).len() implies inside(
            #[trigger] (before + last)[i],
            pane,
        ) by {
            if i >= before.len() {
                assert((before + last)[i] == last[i - before.len()]);
            }
        }
    }
}

/// The terminal cell for board cell `(x, y)`, or `None` if it is clipped.
pub fn place(x: usize, y: usize, pane: &Pane) -> (cell: Option<(u16, u16)>)
    requires
        pane.fits(),
    ensures
        cell == placed(x as int, y as int, *pane),
{
    assert(x * pane.width <= 0xffff_ffff_ffff_ffff * 0xffff && y * pane.height
        <= 0xffff_ffff_ffff_ffff * 0xffff) by (nonlinear_arith)
        requires
            0 <= x <= 0xffff_ffff_ffff_ffff,
            0 <= y <= 0xffff_ffff_ffff_ffff,
            0 <= pane.width <= 0xffff,
            0 <= pane.height <= 0xffff,
    ;
    let dx: u128 = (x as u128 * pane.width as u128) / (NUM_COLS as u128);
    let dy: u128 = (y as u128 * pane.height as u128) / (NUM_ROWS as u128);
    if dx < pane.width as u128 && dy < pane.height as u128 {
        Some((pane.x + dx as u16, pane.y + dy as u16))
    } else {
        None
    }
}

/// Appends the glyph for something in board cell `(x, y)` unless it is
/// clipped.
fn push_sprite(glyphs: &mut Vec<Glyph>, x: usize, y: usize, pane: &Pane, symbol: char, color: Color)
    requires
        pane.fits(),
    ensures
        final(glyphs)@ == old(glyphs)@ + sprite(x as int, y as int, *pane, symbol, color),
{
    match place(x, y, pane) {
        Some((col, row)) => {
            glyphs.push(Glyph { col, row, symbol, color });
        },
        None => {
        },
    }
}

/// The glyphs of a game stretched over `pane`.
pub fn glyphs_of(app: &App, pane: &Pane) -> (glyphs: Vec<Glyph>)
    requires
        pane.fits(),
    ensures
        glyphs@ == game_glyphs(app@, *pane),
        forall|i: int| 0 <= i < glyphs@.len() ==> inside(#[trigger] glyphs@[i], *pane),
{
    proof {
        lemma_glyphs_inside(app@, *pane);
    }
    let mut glyphs: Vec<Glyph> = Vec::new();
    push_sprite(&mut glyphs, app.player.x, app.player.y, pane, 'H', Color::Green);
    let ghost ship = glyphs@;
    let mut k: usize = 0;
    while k < app.player.shots.len()
        invariant
            pane.fits(),
            k <= app.player.shots@.len(),
            glyphs@ == ship + shot_sprites(app@.player.shots, k as int, *pane),
        decreases app.player.shots@.len() - k,
    {
        let shot = &app.player.shots[k];
        let symbol = if shot.exploded {
            '*'
        } else {
            '|'
        };
        push_sprite(&mut glyphs, shot.x, shot.y, pane, symbol, Color::Yellow);
        k += 1;
    }
    let ghost shots = glyphs@;
    let mut i: usize = 0;
    while i < app.enemies.army.len()
        invariant
            pane.fits(),
            i <= app.enemies.army@.len(),
            glyphs@ == shots + fleet_sprites(app@.fleet.army, i as int, *pane),
        decreases app.enemies.army@.len() - i,
    {
        let enemy = &app.enemies.army[i];
        if enemy.alive {
            push_sprite(&mut glyphs, enemy.x, enemy.y, pane, 'V', Color::Red);
        }
        i += 1;
    }
    glyphs
}

/// The character for the decimal digit `d`.
pub open spec fn digit(d: int) -> char {
    if d == 0 {
        '0'
    } else if d == 1 {
        '1'
    } else if d == 2 {
        '2'
    } else if d == 3 {
        '3'
    } else if d == 4 {
        '4'
    } else if d == 5 {
        '5'
    } else if d == 6 {
        '6'
    } else if d == 7 {
        '7'
    } else if d == 8 {
        '8'
    } else {
        '9'
    }
}

/// The decimal numeral of `n`, without leading zeros.
pub open spec fn digits(n: nat) -> Seq<char>
    decreases n,
{
    if n < 10 {
        seq![digit(n as int)]
    } else {
        digits(n / 10).push(digit((n % 10) as int))
    }
}

/// The one-character string for a decimal digit.
fn digit_str(d: usize) -> (text: &'static str)
    requires
        d < 10,
    ensures
        text@ == seq![digit(d as int)],
{
    proof {
        reveal_strlit("0");
        reveal_strlit("1");
        reveal_strlit("2");
        reveal_strlit("3");
        reveal_strlit("4");
        reveal_strlit("5");
        reveal_strlit("6");
        reveal_strlit("7");
        reveal_strlit("8");
        reveal_strlit("9");
    }
    let text = if d == 0 {
        "0"
    } else if d == 1 {
        "1"
    } else if d == 2 {
        "2"
    } else if d == 3 {
        "3"
    } else if d == 4 {
        "4"
    } else if d == 5 {
        "5"
    } else if d == 6 {
        "6"
    } else if d == 7 {
        "7"
    } else if d == 8 {
        "8"
    } else {
        "9"
    };
    text
}

/// The decimal numeral of `n`.
pub fn decimal(n: usize) -> (text: String)
    ensures
        text@ == digits(n as nat),
{
    let mut text = String::from_str(digit_str(n % 10));
    let mut rest: usize = n / 10;
    while rest > 0
        invariant
            digits(n as nat) == if rest > 0 {
                digits(rest as nat) + text@
            } else {
                text@
            },
        decreases rest,
    {
        let mut longer = String::from_str(digit_str(rest % 10));
        longer.append(text.as_str());
        assert(digits(rest as nat) + text@ =~= if rest >= 10 {
            digits((rest / 10) as nat) + longer@
        } else {
            longer@
        });
        text = longer;
        rest = rest / 10;
    }
    text
}

/// A stretch of text in one colour.
pub struct Span {
    pub text: String,
    pub color: Color,
}

/// The mathematical content of a [`Span`].
pub struct SpanView {
    pub text: Seq<char>,
    pub color: Color,
}

impl View for Span {
    type V = SpanView;

    open spec fn view(&self) -> SpanView {
        SpanView { text: self.text@, color: self.color }
    }
}

/// A line of text and the terminal cells it is painted into.
pub struct TextLine {
    pub area: Pane,
    pub spans: Vec<Span>,
}

/// The mathematical content of a [`TextLine`].
pub struct TextLineView {
    pub area: Pane,
    pub spans: Seq<SpanView>,
}

impl View for TextLine {
    type V = TextLineView;

    open spec fn view(&self) -> TextLineView {
        TextLineView { area: self.area, spans: self.spans@.map_values(|s: Span| s@) }
    }
}

/// Everything to paint for one frame: a bordered box with a title, then
/// glyphs and lines of text, in this order.
pub struct Scene {
    pub frame: Pane,
    pub title: &'static str,
    pub border: Color,
    pub glyphs: Vec<Glyph>,
    pub lines: Vec<TextLine>,
}

/// The mathematical content of a [`Scene`].
pub struct SceneView {
    pub frame: Pane,
    pub title: Seq<char>,
    pub border: Color,
    pub glyphs: Seq<Glyph>,
    pub lines: Seq<TextLineView>,
}

impl View for Scene {
    type V = SceneView;

    open spec fn view(&self) -> SceneView {
        SceneView {
            frame: self.frame,
            title: self.title@,
            border: self.border,
            glyphs: self.glyphs@,
            lines: self.lines@.map_values(|l: TextLine| l@),
        }
    }
}

/// A span of `text` in `color`.
fn span(text: &str, color: Color) -> (s: Span)
    ensures
        s@ == (SpanView { text: text@, color }),
{
    Span { text: String::from_str(text), color }
}

/// A white label followed by a number in green.
pub open spec fn labelled(label: Seq<char>, n: nat) -> Seq<SpanView> {
    seq![
        SpanView { text: label, color: Color::White },
        SpanView { text: digits(n), color: Color::Green },
    ]
}

/// The spans of a white label followed by a number in green.
fn labelled_spans(label: &str, n: usize) -> (spans: Vec<Span>)
    ensures
        spans@.map_values(|s: Span| s@) == labelled(label@, n as nat),
{
    let mut spans: Vec<Span> = Vec::new();
    spans.push(span(label, Color::White));
    spans.push(Span { text: decimal(n), color: Color::Green });
    spans
}

/// The score line of a running game: the label and the number in one white
/// span, on the last row inside the border, over its whole width.
pub open spec fn score_line(score: nat, inner: Pane) -> TextLineView {
    TextLineView {
        area: Pane {
            x: inner.x,
            y: (inner.y + inner.height - 1) as u16,
            width: inner.width,
            height: 1,
        },
        spans: seq![SpanView { text: "Score: "@ + digits(score), color: Color::White }],
    }
}

/// The scene of a running game painted into `area`: a white box titled
/// with the game's name, inside it the glyphs of the game, and the score
/// line.
pub open spec fn game_scene(g: GameView, area: Pane) -> SceneView {
    SceneView {
        frame: area,
        title: "Space Invaders"@,
        border: Color::White,
        glyphs: game_glyphs(g, area.inset()),
        lines: seq![score_line(g.destroyed_count, area.inset())],
    }
}

/// The prompt under the scores of a game that has ended.
pub open spec fn prompt() -> Seq<SpanView> {
    seq![
        SpanView { text: "Press "@, color: Color::White },
        SpanView { text: "R"@, color: Color::Yellow },
        SpanView { text: " to restart or "@, color: Color::White },
        SpanView { text: "Q"@, color: Color::Yellow },
        SpanView { text: " to quit"@, color: Color::White },
    ]
}

/// The title over the scores of a game that has ended.
pub open spec fn end_title(state: GameState) -> Seq<char> {
    if state is Win {
        "You Win!"@
    } else {
        "Game Over!"@
    }
}

/// The scene of a game that has ended: a yellow box on `panel`, titled with
/// the outcome, and three lines of text, the score on `first`, the high
/// score on `second` and the prompt on `last`.
pub open spec fn end_scene(
    g: GameView,
    panel: Pane,
    first: Pane,
    second: Pane,
    last: Pane,
) -> SceneView {
    SceneView {
        frame: panel,
        title: end_title(g.state),
        border: Color::Yellow,
        glyphs: Seq::empty(),
        lines: seq![
            TextLineView {
                area: first,
                spans: labelled("Enemies destroyed: "@, g.destroyed_count),
            },
            TextLineView { area: second, spans: labelled("High score: "@, g.high_score) },
            TextLineView { area: last, spans: prompt() },
        ],
    }
}

/// Whether `inner` spans the width of `outer` and lies between its top and
/// its bottom.
pub open spec fn row_of(inner: Pane, outer: Pane) -> bool {
    &&& inner.x == outer.x
    &&& inner.width == outer.width
    &&& outer.y <= inner.y
    &&& inner.y + inner.height <= outer.y + outer.height
}

/// Whether `scene` is the closing scene of `g` laid out in `area`. The text
/// and the colours are those of [`end_scene`]. Of the places this much is
/// fixed: the panel is a row of `area`, and each line of text is a row of
/// the panel's inside. Which rows they are is left to the layout.
pub open spec fn closing(g: GameView, area: Pane, scene: SceneView) -> bool {
    &&& scene.lines.len() == 3
    &&& scene == end_scene(
        g,
        scene.frame,
        scene.lines[0].area,
        scene.lines[1].area,
        scene.lines[2].area,
    )
    &&& row_of(scene.frame, area)
    &&& forall|i: int| 0 <= i < 3 ==> row_of((#[trigger] scene.lines[i]).area, scene.frame.inset())
}

/// The rules by which the area is cut into three bands, the middle one for
/// the closing panel: thirty hundredths, seven rows, thirty hundredths.
pub open spec fn panel_layout() -> Seq<RowRule> {
    seq![RowRule::Percentage(30), RowRule::Length(7), RowRule::Percentage(30)]
}

/// The rules by which the inside of the closing panel is cut into four
/// rows of text, one terminal row each.
pub open spec fn text_layout() -> Seq<RowRule> {
    seq![RowRule::Length(1), RowRule::Length(1), RowRule::Length(1), RowRule::Length(1)]
}

/// How tall a row of a layout is to be.
#[derive(Clone, Copy, Debug, PartialEq, Eq)]
pub enum RowRule {
    /// A share of the height, in hundredths.
    Percentage(u16),
    /// A number of terminal rows.
    Length(u16),
}

/// `Block::inner` of `ratatui`, trusted, for a block with a border on all
/// four sides and no padding: the area loses one cell on each side, as far
/// as it has them, and the result's corner is kept from passing the area's
/// far edges.
#[verifier::external_body]
fn block_inner(area: Pane) -> (inner: Pane)
    ensures
        inner == area.inset(),
{
    let rect = Rect { x: area.x, y: area.y, width: area.width, height: area.height };
    let inner = Block::default().borders(Borders::ALL).inner(rect);
    Pane { x: inner.x, y: inner.y, width: inner.width, height: inner.height }
}

/// `Layout::split` of `ratatui`, trusted, for a vertical layout without
/// margin: one row comes back for each rule, in order; each row has the
/// area's left edge and width and lies between the area's top and bottom,
/// which the layout requires of every row. Where between them a row starts
/// and how tall it is, is the layout solver's choice; nothing is claimed
/// of it.
#[verifier::external_body]
fn split_rows(area: Pane, rules: &Vec<RowRule>) -> (rows: Vec<Pane>)
    ensures
        rows@.len() == rules@.len(),
        forall|i: int| 0 <= i < rows@.len() ==> row_of(#[trigger] rows@[i], area),
{
    let rect = Rect { x: area.x, y: area.y, width: area.width, height: area.height };
    let constraints = rules.iter().map(
        |rule|
            match rule {
                RowRule::Percentage(share) => Constraint::Percentage(*share),
                RowRule::Length(cells) => Constraint::Length(*cells),
            },
    );
    let layout = Layout::default().direction(Direction::Vertical).constraints(constraints);
    let rows = layout.split(rect);
    rows.iter().map(|r| Pane { x: r.x, y: r.y, width: r.width, height: r.height }).collect()
}

impl App {
    /// The scene for the game as it stands, painted into `area`: the board
    /// while the game runs, the closing panel once it has ended.
    pub fn render(&self, area: Pane) -> (scene: Scene)
        requires
            self.state is Playing ==> area.holds_game(),
        ensures
            self.state is Playing ==> scene@ == game_scene(self@, area),
            !(self.state is Playing) ==> closing(self@, area, scene@),
    {
        match self.state {
            GameState::Playing => self.render_game(area),
            _ => self.render_game_over(area),
        }
    }

    /// The scene of the board.
    pub fn render_game(&self, area: Pane) -> (scene: Scene)
        requires
            area.holds_game(),
        ensures
            scene@ == game_scene(self@, area),
            forall|i: int|
                0 <= i < scene.glyphs@.len() ==> inside(#[trigger] scene.glyphs@[i], area.inset()),
    {
        let inner = block_inner(area);
        let glyphs = glyphs_of(self, &inner);
        let mut text = String::from_str("Score: ");
        text.append(decimal(self.destroyed_count).as_str());
        let mut spans: Vec<Span> = Vec::new();
        spans.push(Span { text, color: Color::White });
        let score = TextLine {
            area: Pane { x: inner.x, y: inner.y + inner.height - 1, width: inner.width, height: 1 },
            spans,
        };
        assert(score@.spans =~= score_line(self@.destroyed_count, inner).spans);
        let mut lines: Vec<TextLine> = Vec::new();
        lines.push(score);
        let title = "Space Invaders";
        let scene = Scene { frame: area, title, border: Color::White, glyphs, lines };
        assert(scene@.lines =~= seq![score_line(self@.destroyed_count, inner)]);
        scene
    }

    /// The scene of the closing panel laid out in `area`. The layout cuts
    /// `area` into the three bands of [`panel_layout`] and the inside of the
    /// middle one into the four rows of [`text_layout`].
    pub fn render_game_over(&self, area: Pane) -> (scene: Scene)
        ensures
            closing(self@, area, scene@),
    {
        let chunks = split_rows(area, &panel_rules());
        let rows = split_rows(block_inner(chunks[1]), &text_rules());
        self.closing_panel(&chunks, &rows)
    }

    /// The scene of the closing panel, given the three bands that the area
    /// was cut into and the four rows that the panel's inside was cut into:
    /// the panel is the middle band, the score goes on the first row, the
    /// high score on the second and the prompt on the fourth.
    pub fn closing_panel(&self, chunks: &Vec<Pane>, rows: &Vec<Pane>) -> (scene: Scene)
        requires
            chunks@.len() == 3,
            rows@.len() == 4,
        ensures
            scene@ == end_scene(self@, chunks@[1], rows@[0], rows@[1], rows@[3]),
    {
        let title = match self.state {
            GameState::Win => "You Win!",
            _ => "Game Over!",
        };
        let mut hint: Vec<Span> = Vec::new();
        hint.push(span("Press ", Color::White));
        hint.push(span("R", Color::Yellow));
        hint.push(span(" to restart or ", Color::White));
        hint.push(span("Q", Color::Yellow));
        hint.push(span(" to quit", Color::White));
        assert(hint@.map_values(|s: Span| s@) =~= prompt());
        let mut lines: Vec<TextLine> = Vec::new();
        let score = labelled_spans("Enemies destroyed: ", self.destroyed_count);
        let best = labelled_spans("High score: ", self.high_score);
        lines.push(TextLine { area: rows[0], spans: score });
        lines.push(TextLine { area: rows[1], spans: best });
        lines.push(TextLine { area: rows[3], spans: hint });
        let panel = chunks[1];
        let scene = Scene { frame: panel, title, border: Color::Yellow, glyphs: Vec::new(), lines };
        assert(scene@.lines =~= end_scene(self@, panel, rows@[0], rows@[1], rows@[3]).lines);
        scene
    }
}

/// The rules for the three bands of the closing scene.
pub fn panel_rules() -> (rules: Vec<RowRule>)
    ensures
        rules@ == panel_layout(),
{
    let mut rules: Vec<RowRule> = Vec::new();
    rules.push(RowRule::Percentage(30));
    rules.push(RowRule::Length(7));
    rules.push(RowRule::Percentage(30));
    assert(rules@ =~= panel_layout());
    rules
}

/// The rules for the four rows of text in the closing panel.
pub fn text_rules() -> (rules: Vec<RowRule>)
    ensures
        rules@ == text_layout(),
{
    let mut rules: Vec<RowRule> = Vec::new();
    rules.push(RowRule::Length(1));
    rules.push(RowRule::Length(1));
    rules.push(RowRule::Length(1));
    rules.push(RowRule::Length(1));
    assert(rules@ =~= text_layout());
    rules
}

} // verus!
