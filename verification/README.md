# transecho

The decision logic of a live speech-interpretation desktop client, verified
with Verus. The client captures the microphone, streams the audio to a
simultaneous-interpretation service and shows the source and translated
subtitles it gets back.

`src/` is the verified library:

- `session.rs`: the session as a state machine (`Session::step`): subtitle
  handling, silence auto-pause and reconnection, echo muting, stop and
  failure handling, with its transition function `next` and its laws.
- `dedup.rs`: suppression of repeated finalized subtitles over a window of
  the last fifteen.
- `audio.rs`: silence detection with hysteresis, echo window, the sample
  buffer that feeds the resampler, the packets sent to the service, sample
  format selection.
- `config.rs`: the opening request and the reading of the service's first
  answer.
- `slot.rs`: the single running-session slot.
- `export.rs`: transcript export checks, file name and error messages.
- `text.rs`: Unicode white space, trimming, decimal rendering.

`app/` is the Tauri command layer and the microphone capture that drive the
library; it needs the Tauri and CPAL stacks and the transport, resampler and
playback modules of the full application.
