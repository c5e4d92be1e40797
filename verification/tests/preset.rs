use rivulet_core::preset::RecordingPreset;


    #[test]
    fn original_has_no_transform() {
        assert!(!RecordingPreset::original().transforms_video());
        assert!(!RecordingPreset::original().caps_fragment().is_some());
        assert!(RecordingPreset::original().transform_fragment().is_empty());
    }

    #[test]
    fn preset_1080p60_dimensions() {
        let p = RecordingPreset::p1080p60();
        assert_eq!(p.effective_width(3840), 1920);
        assert_eq!(p.effective_height(2160), 1080);
        assert_eq!(p.effective_fps(30), 60);
        assert_eq!(p.effective_bitrate_kbps(5000), 8000);
    }

    #[test]
    fn preset_falls_back_to_source() {
        let p = RecordingPreset::original();
        assert_eq!(p.effective_width(3840), 3840);
        assert_eq!(p.effective_height(2160), 2160);
        assert_eq!(p.effective_fps(30), 30);
        assert_eq!(p.effective_bitrate_kbps(5000), 5000);
    }

    #[test]
    fn preset_720p30_dimensions() {
        let p = RecordingPreset::p720p30();
        assert_eq!(p.effective_width(1920), 1280);
        assert_eq!(p.effective_height(1080), 720);
        assert_eq!(p.effective_fps(60), 30);
        assert_eq!(p.effective_bitrate_kbps(8000), 2500);
    }

    #[test]
    fn preset_480p30_dimensions() {
        let p = RecordingPreset::p480p30();
        assert_eq!(p.effective_width(1920), 640);
        assert_eq!(p.effective_height(1080), 480);
        assert_eq!(p.effective_bitrate_kbps(5000), 1500);
    }

    #[test]
    fn caps_fragment_contains_resolution_and_fps() {
        let caps = RecordingPreset::p1080p60().caps_fragment().unwrap();
        assert!(caps.contains("width=1920"), "{caps}");
        assert!(caps.contains("height=1080"), "{caps}");
        assert!(caps.contains("framerate=60/1"), "{caps}");
    }

    #[test]
    fn transform_fragment_includes_videoscale_and_videorate() {
        let frag = RecordingPreset::p720p30().transform_fragment();
        assert!(frag.contains("videoscale"), "{frag}");
        assert!(frag.contains("videorate"), "{frag}");
        assert!(frag.contains("width=1280"), "{frag}");
    }

    #[test]
    fn all_presets_are_distinct() {
        let labels: Vec<_> = RecordingPreset::all().iter().map(|p| p.label).collect();
        let mut sorted = labels.clone();
        sorted.sort();
        sorted.dedup();
        assert_eq!(labels.len(), sorted.len(), "duplicate preset labels");
    }

    #[test]
    fn default_is_original() {
        assert_eq!(RecordingPreset::default(), RecordingPreset::original());
    }

    #[test]
    fn bitrate_presets_are_sensible() {
        for p in RecordingPreset::all() {
            if let Some(bitrate) = p.bitrate_kbps {
                assert!(bitrate > 0 && bitrate <= 50_000, "{}: {}", p.label, bitrate);
            }
        }
    }
