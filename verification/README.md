# scapegame

A grid shooter: flies follow scripted flight patterns across a 10 by 20
board, fire bullets downwards and are shot by the player from below. The
player steers with the keyboard, a gamepad or an Arduino controller that
posts the peaks of its sensors over HTTP.

## Layout

- `src/` is the verified library, written in Verus:
  - `structs.rs`: board geometry, difficulty levels, ship actions, the tick
    timer;
  - `fly_patterns.rs`: the flight patterns of the flies;
  - `ship.rs`: ships and the scripted AI that drives them;
  - `board.rs`: the board, a map from cells to ships;
  - `game_state.rs`: placing, removing and moving ships, the ship phase of
    a tick and the player's turn, with the score;
  - `player.rs`: the player's lives, moves and respawn;
  - `settings.rs`: the switches of the game, the automatic pilot and gun;
  - `game.rs`: the controls (Arduino actions, keys, gamepad) and the
    opening wave of flies;
  - `arduino.rs`: the controller's text messages and HTTP replies;
  - `score_display.rs`: when the score display pulses;
  - `outside.rs`: the calls into `uuid`, `rand` and the clock.
- `tests/` runs the library on concrete games.
- `app/` is the program around it: the HTTP server (`warp`), the game
  window (`bevy`), the terminal key reader (`console`) and the tick loop.
