use invaders::game::{App, GameState, Key};
use invaders::laser::Laser;
use invaders::render::{
    decimal, glyphs_of, panel_rules, place, text_rules, Color, Glyph, Pane, RowRule, Scene,
};
use std::time::Duration;

fn pane(x: u16, y: u16, width: u16, height: u16) -> Pane {
    Pane { x, y, width, height }
}

fn is_row_of(inner: &Pane, outer: &Pane) -> bool {
    inner.x == outer.x
        && inner.width == outer.width
        && outer.y <= inner.y
        && inner.y as u32 + inner.height as u32 <= outer.y as u32 + outer.height as u32
}

fn text_of(scene: &Scene, line: usize) -> String {
    scene.lines[line].spans.iter().map(|s| s.text.as_str()).collect()
}

#[test]
fn place_scales_the_board_to_the_pane() {
    let same = pane(0, 0, 40, 20);
    assert_eq!(place(0, 0, &same), Some((0, 0)));
    assert_eq!(place(39, 19, &same), Some((39, 19)));
    let double = pane(1, 1, 80, 40);
    assert_eq!(place(39, 19, &double), Some((79, 39)));
    assert_eq!(place(20, 19, &double), Some((41, 39)));
    let small = pane(3, 2, 30, 10);
    assert_eq!(place(20, 19, &small), Some((18, 11)));
    assert_eq!(place(1, 1, &small), Some((3, 2)));
    assert_eq!(place(39, 3, &small), Some((32, 3)));
    let odd = pane(0, 0, 78, 22);
    assert_eq!(place(5, 2, &odd), Some((9, 2)));
    assert_eq!(place(34, 19, &odd), Some((66, 20)));
}

#[test]
fn place_clips_what_lies_outside_the_pane() {
    let small = pane(3, 2, 30, 10);
    assert_eq!(place(40, 0, &small), None);
    assert_eq!(place(0, 20, &small), None);
    assert_eq!(place(39, 19, &small), Some((32, 11)));
    assert_eq!(place(usize::MAX, 0, &small), None);
    assert_eq!(place(0, usize::MAX, &small), None);
    assert_eq!(place(0, 0, &pane(5, 5, 0, 10)), None);
    assert_eq!(place(0, 0, &pane(5, 5, 10, 0)), None);
    let edge = pane(65495, 65515, 40, 20);
    assert_eq!(place(39, 19, &edge), Some((65534, 65534)));
}

#[test]
fn decimal_writes_numerals() {
    assert_eq!(decimal(0), "0");
    assert_eq!(decimal(7), "7");
    assert_eq!(decimal(10), "10");
    assert_eq!(decimal(90), "90");
    assert_eq!(decimal(1234567890), "1234567890");
    assert_eq!(decimal(usize::MAX), usize::MAX.to_string());
}

#[test]
fn pane_must_fit_and_have_a_row_for_the_score() {
    assert!(pane(0, 0, 80, 24).can_hold_game());
    assert!(pane(0, 0, 0, 1).can_hold_game());
    assert!(pane(0, 1, 0, 0).can_hold_game());
    assert!(!pane(0, 0, 80, 0).can_hold_game());
    assert!(pane(65535, 65535, 0, 0).can_hold_game());
    assert!(!pane(65535, 0, 1, 5).can_hold_game());
    assert!(!pane(0, 65530, 1, 6).can_hold_game());
    assert!(pane(0, 65530, 1, 5).can_hold_game());
}

#[test]
fn board_scene_of_a_new_game() {
    let app = App::new();
    let area = pane(0, 0, 42, 22);
    let scene = app.render(area);
    assert_eq!(scene.frame, area);
    assert_eq!(scene.title, "Space Invaders");
    assert_eq!(scene.border, Color::White);
    assert_eq!(scene.glyphs.len(), 91);
    assert_eq!(scene.glyphs[0], Glyph { col: 21, row: 20, symbol: 'H', color: Color::Green });
    assert_eq!(scene.glyphs[1], Glyph { col: 6, row: 1, symbol: 'V', color: Color::Red });
    assert_eq!(scene.glyphs[2], Glyph { col: 6, row: 2, symbol: 'V', color: Color::Red });
    assert_eq!(scene.glyphs[90], Glyph { col: 35, row: 3, symbol: 'V', color: Color::Red });
    assert_eq!(scene.lines.len(), 1);
    assert_eq!(scene.lines[0].area, pane(1, 20, 40, 1));
    assert_eq!(scene.lines[0].spans.len(), 1);
    assert_eq!(scene.lines[0].spans[0].text, "Score: 0");
    assert_eq!(scene.lines[0].spans[0].color, Color::White);
}

#[test]
fn board_scene_paints_ship_then_shots_then_fleet() {
    let mut app = App::new();
    app.handle_key(Key::Space);
    app.player.shots.push(Laser::new(7, 2));
    app.tick(Duration::ZERO);
    assert_eq!(app.destroyed_count, 1);
    let scene = app.render_game(pane(10, 5, 82, 42));
    // inside the border the board is twice as large as its grid
    assert_eq!(scene.glyphs.len(), 1 + 2 + 89);
    assert_eq!(scene.glyphs[0], Glyph { col: 51, row: 44, symbol: 'H', color: Color::Green });
    assert_eq!(scene.glyphs[1], Glyph { col: 51, row: 42, symbol: '|', color: Color::Yellow });
    assert_eq!(scene.glyphs[2], Glyph { col: 25, row: 10, symbol: '*', color: Color::Yellow });
    assert_eq!(scene.glyphs[3], Glyph { col: 21, row: 6, symbol: 'V', color: Color::Red });
    assert!(!scene.glyphs.iter().any(|g| g.symbol == 'V' && g.col == 25 && g.row == 10));
    assert_eq!(scene.lines[0].area, pane(11, 45, 80, 1));
    assert_eq!(text_of(&scene, 0), "Score: 1");
}

#[test]
fn board_scene_clips_what_has_left_the_board() {
    let mut app = App::new();
    app.enemies.army[0].y = 20;
    app.enemies.army[1].x = 40;
    let glyphs = glyphs_of(&app, &pane(0, 0, 40, 20));
    assert_eq!(glyphs.len(), 89);
    assert_eq!(glyphs[1], Glyph { col: 5, row: 2, symbol: 'V', color: Color::Red });
}

#[test]
fn board_scene_in_a_pane_without_room() {
    let app = App::new();
    let scene = app.render(pane(0, 0, 2, 2));
    assert!(scene.glyphs.is_empty());
    assert_eq!(scene.lines[0].area, pane(1, 0, 0, 1));
    let scene = app.render(pane(4, 7, 1, 1));
    assert!(scene.glyphs.is_empty());
    assert_eq!(scene.lines[0].area, pane(5, 7, 0, 1));
}

#[test]
fn closing_panel_of_a_lost_game() {
    let mut app = App::new();
    app.destroyed_count = 12;
    app.high_score = 34;
    app.state = GameState::GameOver;
    let chunks = vec![pane(0, 0, 80, 8), pane(0, 8, 80, 7), pane(0, 15, 80, 9)];
    let rows = vec![pane(1, 9, 78, 1), pane(1, 10, 78, 1), pane(1, 11, 78, 1), pane(1, 12, 78, 1)];
    let scene = app.closing_panel(&chunks, &rows);
    assert_eq!(scene.frame, pane(0, 8, 80, 7));
    assert_eq!(scene.title, "Game Over!");
    assert_eq!(scene.border, Color::Yellow);
    assert!(scene.glyphs.is_empty());
    assert_eq!(scene.lines.len(), 3);
    assert_eq!(scene.lines[0].area, rows[0]);
    assert_eq!(scene.lines[1].area, rows[1]);
    assert_eq!(scene.lines[2].area, rows[3]);
    assert_eq!(text_of(&scene, 0), "Enemies destroyed: 12");
    assert_eq!(text_of(&scene, 1), "High score: 34");
    assert_eq!(text_of(&scene, 2), "Press R to restart or Q to quit");
    let colors = |line: usize| scene.lines[line].spans.iter().map(|s| s.color).collect::<Vec<_>>();
    assert_eq!(colors(0), vec![Color::White, Color::Green]);
    assert_eq!(colors(1), vec![Color::White, Color::Green]);
    assert_eq!(
        colors(2),
        vec![Color::White, Color::Yellow, Color::White, Color::Yellow, Color::White]
    );
    assert_eq!(scene.lines[2].spans[1].text, "R");
    assert_eq!(scene.lines[2].spans[3].text, "Q");
}

#[test]
fn closing_panel_of_a_won_game() {
    let mut app = App::new();
    app.state = GameState::Win;
    let chunks = vec![pane(0, 0, 3, 1), pane(0, 1, 3, 3), pane(0, 4, 3, 1)];
    let rows = vec![pane(1, 2, 1, 1), pane(1, 2, 1, 0), pane(1, 2, 1, 0), pane(1, 3, 1, 0)];
    let scene = app.closing_panel(&chunks, &rows);
    assert_eq!(scene.frame, chunks[1]);
    assert_eq!(scene.lines[0].area, rows[0]);
    assert_eq!(scene.lines[1].area, rows[1]);
    assert_eq!(scene.lines[2].area, rows[3]);
    assert_eq!(scene.title, "You Win!");
    assert_eq!(text_of(&scene, 0), "Enemies destroyed: 0");
}

#[test]
fn closing_scene_is_laid_out_inside_the_area() {
    let mut app = App::new();
    app.state = GameState::Win;
    app.destroyed_count = 90;
    app.high_score = 90;
    let area = pane(0, 0, 80, 24);
    let scene = app.render(area);
    assert_eq!(scene.title, "You Win!");
    assert_eq!(scene.frame.x, 0);
    assert_eq!(scene.frame.width, 80);
    assert_eq!(scene.frame.height, 7);
    assert!(scene.frame.y > 0 && scene.frame.y + scene.frame.height <= 24);
    assert_eq!(scene.lines.len(), 3);
    for line in scene.lines.iter() {
        assert_eq!(line.area.x, 1);
        assert_eq!(line.area.width, 78);
        assert_eq!(line.area.height, 1);
    }
    assert_eq!(scene.lines[0].area.y, scene.frame.y + 1);
    assert_eq!(scene.lines[1].area.y, scene.frame.y + 2);
    assert_eq!(scene.lines[2].area.y, scene.frame.y + 4);
    assert_eq!(text_of(&scene, 1), "High score: 90");
    let same = app.render_game_over(area);
    assert_eq!(same.frame, scene.frame);
}

#[test]
fn every_glyph_lies_inside_the_border() {
    let mut app = App::new();
    app.handle_key(Key::Space);
    app.player.shots.push(Laser::new(39, 0));
    app.enemies.army[0].y = 25;
    app.enemies.army[1].x = 41;
    for (width, height) in [(3, 3), (10, 7), (41, 21), (42, 22), (80, 24), (200, 60)] {
        let area = pane(2, 1, width, height);
        let scene = app.render(area);
        assert!(!scene.glyphs.is_empty());
        for glyph in scene.glyphs.iter() {
            assert!(glyph.col >= 3 && glyph.col < 2 + width - 1);
            assert!(glyph.row >= 2 && glyph.row < 1 + height - 1);
        }
        assert_eq!(scene.glyphs.len(), 1 + 2 + 88);
    }
}

#[test]
fn closing_scene_is_made_for_any_area() {
    let mut app = App::new();
    app.state = GameState::GameOver;
    let areas = [
        pane(0, 0, 0, 0),
        pane(0, 0, 1, 1),
        pane(0, 0, 1, 200),
        pane(3, 4, 20, 6),
        pane(3, 4, 20, 7),
        pane(0, 0, 65535, 65535),
        pane(65535, 65535, 0, 0),
        pane(65535, 65535, 65535, 65535),
        pane(40000, 40000, 40000, 40000),
    ];
    for area in areas {
        let scene = app.render(area);
        assert_eq!(scene.title, "Game Over!");
        assert_eq!(scene.frame.x, area.x);
        assert_eq!(scene.frame.width, area.width);
        assert!(is_row_of(&scene.frame, &area));
        assert_eq!(scene.lines.len(), 3);
        for line in scene.lines.iter() {
            assert_eq!(line.area.width, area.width.saturating_sub(2));
        }
        assert_eq!(text_of(&scene, 2), "Press R to restart or Q to quit");
    }
}

#[test]
fn closing_scene_is_cut_by_these_rules() {
    assert_eq!(
        panel_rules(),
        vec![RowRule::Percentage(30), RowRule::Length(7), RowRule::Percentage(30)]
    );
    assert_eq!(text_rules(), vec![RowRule::Length(1); 4]);
}

#[test]
fn closing_panel_and_its_text_stay_inside() {
    let mut app = App::new();
    app.state = GameState::Win;
    let mut seed: u32 = 2463534242;
    let mut next = move |limit: u32| {
        seed ^= seed << 13;
        seed ^= seed >> 17;
        seed ^= seed << 5;
        (seed % limit) as u16
    };
    for round in 0..400 {
        let area = if round % 4 == 0 {
            pane(next(65536), next(65536), next(65536), next(65536))
        } else {
            pane(next(50), next(50), next(300), next(120))
        };
        let scene = app.render_game_over(area);
        assert!(is_row_of(&scene.frame, &area));
        // the inside of the panel, one cell in from each side as far as there is room
        let panel = scene.frame;
        let inside = Pane {
            x: panel.x.saturating_add(1).min(panel.x.saturating_add(panel.width)),
            y: panel.y.saturating_add(1).min(panel.y.saturating_add(panel.height)),
            width: panel.width.saturating_sub(2),
            height: panel.height.saturating_sub(2),
        };
        for line in scene.lines.iter() {
            assert!(is_row_of(&line.area, &inside));
        }
    }
}
