use console::{drain_all, render_cells, renderer_step, Cell, Graphic, RenderStep};

#[test]
fn render_paints_one_cell_per_pixel_in_row_major_order() {
    let g = Graphic::new(vec![0u8, 1, 2, 0], 2);
    let cells = render_cells(g);
    assert_eq!(
        cells,
        vec![
            Cell { column: 0, row: 0, lit: false },
            Cell { column: 1, row: 0, lit: true },
            Cell { column: 0, row: 1, lit: true },
            Cell { column: 1, row: 1, lit: false },
        ]
    );
}

#[test]
fn bitmap_scenario_three_rows_of_sixty_four() {
    let mut content = vec![0u8; 192];
    let mut g = Graphic::new(content.clone(), 64);
    let mut rows = 0usize;
    while let Some(row) = g.next_row() {
        assert_eq!(row, vec![0u8; 64]);
        rows += 1;
    }
    assert_eq!(rows, 3);

    content[10] = 1;
    let cells = render_cells(Graphic::new(content, 64));
    assert_eq!(cells.len(), 192);
    for (i, cell) in cells.iter().enumerate() {
        assert_eq!(cell.column, i % 64);
        assert_eq!(cell.row, i / 64);
        assert_eq!(cell.lit, i == 10);
    }
}

#[test]
fn idle_tick_when_no_frame_is_pending() {
    let step = renderer_step(None);
    assert!(matches!(step, RenderStep::Idle));
}

#[test]
fn pending_frame_is_painted_this_tick() {
    let g = Graphic::new(vec![5u8, 0], 2);
    let step = renderer_step(Some(g));
    match step {
        RenderStep::Paint(cells) => {
            assert_eq!(
                cells,
                vec![
                    Cell { column: 0, row: 0, lit: true },
                    Cell { column: 1, row: 0, lit: false },
                ]
            );
        }
        RenderStep::Idle => panic!("a pending frame must be painted"),
    }
}

#[test]
fn queued_frames_render_once_each_in_send_order() {
    let frames = vec![
        Graphic::new(vec![1u8, 0], 2),
        Graphic::new(vec![0u8, 0], 2),
        Graphic::new(vec![0u8, 3], 2),
    ];
    let paints = drain_all(frames);
    assert_eq!(paints.len(), 3);
    assert_eq!(paints[0][0].lit, true);
    assert_eq!(paints[0][1].lit, false);
    assert_eq!(paints[1][0].lit, false);
    assert_eq!(paints[1][1].lit, false);
    assert_eq!(paints[2][0].lit, false);
    assert_eq!(paints[2][1].lit, true);
}

#[test]
fn empty_queue_drains_to_no_renders() {
    let paints = drain_all(Vec::new());
    assert!(paints.is_empty());
}
