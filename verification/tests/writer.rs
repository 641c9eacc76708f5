use frots::writer::{Decision, Writer};

// Drive the writer's decisions over a sequence of line sizes and replay them
// against a model: a list of files (each a list of line sizes), plus the
// stream of echoed lines.
fn run(lim: u64, tee: bool, lines: &[u64]) -> (Vec<Vec<u64>>, Vec<u64>, usize) {
    let mut w = Writer::new(lim, tee);
    let mut files: Vec<Vec<u64>> = vec![vec![]];
    let mut echoed: Vec<u64> = vec![];
    let mut rotations: usize = 0;
    for &n in lines {
        match w.on_read(n) {
            Decision::Stop => break,
            Decision::Write { echo, rotate } => {
                if echo {
                    echoed.push(n);
                }
                if rotate {
                    rotations += 1;
                    files.push(vec![]);
                }
                files.last_mut().unwrap().push(n);
            }
        }
    }
    (files, echoed, rotations)
}

#[test]
fn rotation_triggers_once_for_three_half_lines() {
    // Limit 100, three 50-byte lines: exactly one rotation, and the third
    // line lands in the fresh post-rotation file, not the one rotated away.
    let (files, _, rotations) = run(100, false, &[50, 50, 50]);
    assert_eq!(rotations, 1);
    let last_file = files.last().unwrap();
    assert_eq!(last_file.last(), Some(&50));
    assert_eq!(files.first().unwrap(), &vec![50]);
    assert_eq!(files.len(), 2);
}

#[test]
fn tee_echoes_every_line_in_order() {
    let lines = [40, 40, 40, 40, 40, 40];
    let (_, echoed, rotations) = run(100, true, &lines);
    assert_eq!(echoed, lines.to_vec());
    assert!(rotations >= 2);
    let (_, silent, _) = run(100, false, &lines);
    assert!(silent.is_empty());
}

#[test]
fn oversized_line_written_whole() {
    // A single line longer than the limit is still written in full to one
    // file; the unit is never split across a rotation.
    let (files, _, _) = run(100, false, &[150]);
    let with_line: Vec<_> = files.iter().filter(|f| !f.is_empty()).collect();
    assert_eq!(with_line.len(), 1);
    assert_eq!(with_line[0], &vec![150]);
    // The counter was reset before the oversized line was written, so a small
    // follow-up line does not trigger another rotation.
    let mut w = Writer::new(100, false);
    assert_eq!(
        w.on_read(150),
        Decision::Write { echo: false, rotate: true }
    );
    assert_eq!(
        w.on_read(10),
        Decision::Write { echo: false, rotate: false }
    );
}

#[test]
fn empty_read_stops() {
    let mut w = Writer::new(10, true);
    assert_eq!(w.on_read(4), Decision::Write { echo: true, rotate: false });
    assert_eq!(w.on_read(0), Decision::Stop);
}

#[test]
fn exact_limit_rotates() {
    let mut w = Writer::new(100, false);
    assert_eq!(
        w.on_read(100),
        Decision::Write { echo: false, rotate: true }
    );
}
