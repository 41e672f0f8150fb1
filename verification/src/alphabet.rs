//! The alphabet: 1024 symbols in ascending order, one for each ten-bit value.

use vstd::prelude::*;

verus! {

/// Number of symbols in the alphabet: one per ten-bit value.
pub const ALPHABET_LEN: u16 = 1024;

/// The 1024 symbols, in ascending order: the symbol at index `i` stands for
/// the ten-bit value `i`. All of them are CJK ideographs, three bytes each in
/// UTF-8.
pub const KYOCODE_CHARS: [char; 1024] = [
    '一', '丁', '七', '丈', '上', '下', '与', '世', '丙', '両', '中', '丸', '主', '丼', '乏', '乙',
    '乞', '乱', '乾', '了', '争', '事', '互', '井', '亡', '交', '京', '人', '今', '介', '仕', '付',
    '代', '令', '仮', '仲', '任', '企', '伏', '休', '伝', '伯', '伸', '似', '位', '低', '佐', '何',
    '作', '佳', '使', '侍', '依', '価', '侯', '侶', '係', '促', '俗', '信', '修', '俵', '俺', '個',
    '倍', '候', '倣', '倫', '倹', '偏', '健', '偵', '偶', '傍', '傘', '催', '傲', '傷', '僅', '像',
    '僕', '僧', '億', '償', '優', '兄', '兆', '光', '克', '児', '入', '八', '公', '共', '具', '兼',
    '内', '冊', '冒', '写', '冠', '冬', '冷', '准', '凍', '凡', '凶', '凹', '出', '刃', '切', '刊',
    '刑', '列', '初', '判', '別', '利', '到', '制', '刷', '刹', '刺', '刻', '則', '削', '前', '剖',
    '剛', '剤', '剥', '副', '割', '劇', '功', '劣', '努', '労', '効', '勃', '勇', '動', '務', '募',
    '勤', '勲', '勾', '包', '北', '匹', '医', '十', '升', '午', '卑', '卓', '南', '博', '印', '即',
    '卵', '卸', '厘', '原', '去', '又', '友', '反', '収', '取', '叙', '古', '叫', '可', '史', '号',
    '司', '合', '同', '后', '吐', '君', '否', '吸', '吹', '呈', '告', '呪', '呼', '和', '咽', '哀',
    '員', '唄', '唇', '唯', '唾', '問', '善', '喉', '喜', '喩', '喫', '嗅', '嘱', '器', '噴', '囚',
    '回', '団', '囲', '固', '圏', '土', '圧', '地', '均', '坑', '垂', '垣', '城', '域', '培', '埼',
    '堂', '堆', '堤', '報', '塀', '塁', '塑', '塗', '塞', '填', '境', '増', '墨', '墳', '壁', '壊',
    '士', '声', '売', '夏', '夕', '多', '夢', '天', '夫', '失', '奈', '奏', '契', '奥', '奪', '女',
    '好', '妃', '妊', '妖', '妥', '妬', '妻', '始', '委', '姻', '威', '娘', '娯', '婚', '婿', '媛',
    '嫉', '嫡', '嬢', '孔', '存', '季', '学', '宅', '守', '完', '宗', '宙', '宛', '宝', '客', '室',
    '宰', '宴', '宵', '家', '宿', '寄', '密', '寒', '寝', '寡', '寧', '寮', '寺', '寿', '封', '射',
    '尉', '尋', '導', '少', '就', '尻', '尼', '尾', '局', '屈', '届', '展', '層', '屯', '山', '岡',
    '岬', '岸', '峠', '峰', '崇', '崖', '崩', '川', '巡', '工', '左', '巨', '己', '巾', '市', '帆',
    '帝', '師', '席', '帰', '常', '幅', '幕', '干', '年', '幹', '幻', '幽', '庁', '広', '序', '店',
    '度', '座', '庭', '康', '廃', '廉', '延', '建', '弄', '弊', '弐', '弔', '弟', '弥', '弧', '張',
    '弾', '当', '形', '彫', '影', '役', '往', '径', '律', '後', '徒', '得', '復', '循', '徳', '徹',
    '必', '忌', '志', '忙', '忠', '快', '怒', '思', '急', '性', '怪', '恐', '恣', '恥', '恩', '息',
    '悔', '悟', '悠', '患', '悦', '悩', '悲', '情', '惜', '惨', '想', '愉', '意', '愛', '慄', '態',
    '慎', '慢', '慨', '慮', '慶', '憎', '憧', '憬', '憶', '懇', '懐', '懸', '我', '戚', '戯', '戸',
    '房', '所', '扉', '才', '払', '扶', '承', '抄', '抑', '投', '折', '択', '抱', '抹', '抽', '拉',
    '拍', '拒', '拘', '招', '拠', '括', '拳', '拶', '拾', '指', '挙', '挨', '振', '捉', '捕', '捜',
    '据', '掃', '掌', '掘', '採', '探', '控', '措', '描', '揚', '握', '援', '損', '搬', '携', '摂',
    '摩', '撃', '撮', '擁', '操', '擬', '改', '放', '故', '救', '教', '敢', '敬', '整', '敷', '斉',
    '斑', '料', '斜', '斥', '断', '方', '旅', '族', '既', '日', '旧', '早', '旺', '昇', '易', '星',
    '春', '昧', '昨', '是', '時', '普', '晴', '暁', '暇', '暖', '暦', '暮', '曇', '曜', '曲', '書',
    '曽', '最', '有', '朕', '朗', '朝', '木', '末', '札', '朴', '机', '杉', '村', '条', '杯', '松',
    '板', '枕', '枚', '枝', '枢', '架', '柄', '染', '柱', '柵', '柿', '栄', '栓', '株', '根', '栽',
    '桃', '桑', '桟', '梅', '梨', '棄', '棒', '森', '椅', '椎', '極', '楼', '概', '槽', '模', '横',
    '機', '欠', '欧', '款', '歓', '正', '歩', '歴', '殉', '残', '段', '殻', '毀', '毒', '毛', '民',
    '氷', '氾', '求', '汚', '池', '決', '沈', '沖', '没', '河', '油', '沼', '況', '泊', '法', '波',
    '泥', '泰', '洋', '洞', '洪', '派', '浄', '浜', '浪', '浴', '浸', '涙', '液', '涼', '淑', '淫',
    '混', '清', '済', '渋', '減', '渦', '測', '湖', '湯', '湿', '源', '溝', '溺', '滋', '滝', '滴',
    '漂', '漏', '漠', '漫', '漸', '潜', '潤', '潰', '激', '濃', '濯', '火', '灯', '災', '炊', '炭',
    '為', '無', '然', '煎', '照', '煮', '熟', '燃', '爆', '爵', '爽', '版', '牛', '物', '特', '犬',
    '状', '狙', '独', '猛', '猫', '猶', '獄', '獲', '率', '王', '玩', '珠', '現', '理', '瑠', '璧',
    '璽', '瓶', '甚', '産', '田', '甲', '男', '画', '畏', '畔', '畜', '略', '異', '畿', '疑', '疲',
    '病', '痕', '痛', '痩', '瘍', '癒', '発', '白', '的', '皆', '皇', '皿', '益', '盛', '監', '目',
    '直', '盾', '眉', '県', '眠', '眼', '睡', '睦', '瞭', '矛', '知', '矯', '砂', '砕', '破', '硫',
    '碁', '確', '磨', '礎', '礼', '祈', '祖', '神', '票', '禁', '禍', '秀', '秋', '秒', '租', '称',
    '程', '稚', '稲', '稼', '稿', '穂', '穏', '穴', '空', '窃', '窓', '窮', '立', '章', '端', '竹',
    '笛', '第', '等', '筒', '策', '箋', '管', '箸', '範', '篤', '簿', '籠', '粉', '粒', '粘', '粧',
    '糖', '糸', '糾', '約', '紋', '純', '級', '素', '索', '累', '紳', '紺', '終', '経', '絞', '統',
    '絶', '継', '綱', '綻', '緊', '緒', '締', '緩', '縁', '縛', '縫', '繁', '織', '繰', '罪', '罰',
    '罷', '羊', '羞', '義', '翁', '習', '老', '者', '耕', '聖', '聴', '肌', '肘', '股', '肩', '肯',
    '肺', '背', '胞', '胸', '脅', '脈', '脚', '腎', '腕', '腸', '腺', '膜', '膳', '臓', '臨', '至',
    '臼', '舌', '舞', '航', '舶', '艇', '良', '艶', '芯', '芳', '苗', '若', '英', '茨', '草', '荘',
    '菌', '菜', '萎', '著', '葬', '蓄', '蔵', '薄', '薫', '藍', '藩', '虐', '虜', '虫', '蚕', '蛍',
    '蜂', '血', '行', '街', '衡', '表', '袋', '袖', '裂', '裕', '製', '褐', '襲', '覆', '規', '覧',
    '角', '言', '計', '託', '設', '訴', '詐', '詞', '試', '詰', '詳', '誌', '誕', '誠', '読', '調',
    '論', '諮', '謀', '謎', '謝', '識', '議', '豆', '象', '貝', '財', '貨', '貫', '買', '貼', '賂',
    '資', '賛', '賠', '質', '贈', '走', '超', '足', '路', '踊', '躍', '軌', '軟', '軽', '輝', '輸',
    '辞', '農', '迅', '返', '述', '退', '逆', '途', '速', '逮', '逸', '遇', '遍', '達', '遠', '適',
    '遵', '遺', '那', '郊', '部', '郷', '配', '酔', '酬', '酸', '醸', '里', '量', '針', '鈴', '鉢',
    '銅', '鋭', '錠', '錮', '鍋', '鎌', '鏡', '長', '開', '関', '閲', '阜', '附', '降', '院', '陪',
    '陶', '隅', '随', '障', '隻', '雇', '難', '雲', '需', '霜', '静', '靴', '響', '順', '頒', '頭',
    '額', '願', '飛', '飲', '餅', '餓', '馬', '駐', '験', '骸', '鬱', '魔', '鳥', '鹿', '麺', '黙',
];

/// The alphabet as a table: entry `i` is the symbol of the value `i`.
pub open spec fn alphabet() -> Seq<char> {
    KYOCODE_CHARS@
}

/// The symbol that stands for the ten-bit value `index`.
pub open spec fn symbol(index: int) -> char {
    alphabet()[index]
}

/// Whether `c` is one of the alphabet's symbols.
pub open spec fn is_symbol(c: char) -> bool {
    exists|i: int| 0 <= i < ALPHABET_LEN && #[trigger] symbol(i) == c
}

/// The value that `c` stands for, or `None` when `c` is no symbol of the alphabet.
pub open spec fn index_of_spec(c: char) -> Option<u16> {
    if is_symbol(c) {
        Some((choose|i: int| 0 <= i < ALPHABET_LEN && #[trigger] symbol(i) == c) as u16)
    } else {
        None
    }
}

/// Whether each entry of a table is below the next one.
pub open spec fn ascending(table: Seq<char>) -> bool {
    forall|i: int| 0 <= i && i + 1 < table.len() ==> #[trigger] table[i] < table[i + 1]
}

/// In an ascending table an earlier entry is below every later one.
pub proof fn lemma_ascending_order(table: Seq<char>, i: int, j: int)
    requires
        ascending(table),
        0 <= i < j < table.len(),
    ensures
        table[i] < table[j],
    decreases j - i,
{
    if i + 1 < j {
        lemma_ascending_order(table, i, j - 1);
    }
    assert(table[j - 1] < table[j - 1 + 1]);
}

/// The alphabet is the table of symbols: it has 1024 entries, and entry
/// `index` is the symbol at `index` of `KYOCODE_CHARS`.
pub proof fn lemma_alphabet_is_table()
    ensures
        alphabet() == KYOCODE_CHARS@,
        alphabet().len() == ALPHABET_LEN,
{
}

/// Each entry from 0 up to 127 is below the next one.
proof fn lemma_steps_from_0(i: int)
    requires
        0 <= i < 128,
    ensures
        symbol(i) < symbol(i + 1),
{
}

/// Each entry from 128 up to 255 is below the next one.
proof fn lemma_steps_from_128(i: int)
    requires
        128 <= i < 256,
    ensures
        symbol(i) < symbol(i + 1),
{
}

/// Each entry from 256 up to 383 is below the next one.
proof fn lemma_steps_from_256(i: int)
    requires
        256 <= i < 384,
    ensures
        symbol(i) < symbol(i + 1),
{
}

/// Each entry from 384 up to 511 is below the next one.
proof fn lemma_steps_from_384(i: int)
    requires
        384 <= i < 512,
    ensures
        symbol(i) < symbol(i + 1),
{
}

/// Each entry from 512 up to 639 is below the next one.
proof fn lemma_steps_from_512(i: int)
    requires
        512 <= i < 640,
    ensures
        symbol(i) < symbol(i + 1),
{
}

/// Each entry from 640 up to 767 is below the next one.
proof fn lemma_steps_from_640(i: int)
    requires
        640 <= i < 768,
    ensures
        symbol(i) < symbol(i + 1),
{
}

/// Each entry from 768 up to 895 is below the next one.
proof fn lemma_steps_from_768(i: int)
    requires
        768 <= i < 896,
    ensures
        symbol(i) < symbol(i + 1),
{
}

/// Each entry from 896 up to 1022 is below the next one.
proof fn lemma_steps_from_896(i: int)
    requires
        896 <= i < 1023,
    ensures
        symbol(i) < symbol(i + 1),
{
}

/// Each entry of the alphabet is below the next one.
proof fn lemma_step(i: int)
    requires
        0 <= i < ALPHABET_LEN - 1,
    ensures
        symbol(i) < symbol(i + 1),
{
    if i < 128 {
        lemma_steps_from_0(i);
    } else if i < 256 {
        lemma_steps_from_128(i);
    } else if i < 384 {
        lemma_steps_from_256(i);
    } else if i < 512 {
        lemma_steps_from_384(i);
    } else if i < 640 {
        lemma_steps_from_512(i);
    } else if i < 768 {
        lemma_steps_from_640(i);
    } else if i < 896 {
        lemma_steps_from_768(i);
    } else {
        lemma_steps_from_896(i);
    }
}

/// The alphabet is ascending.
pub proof fn lemma_table_ascending()
    ensures
        alphabet().len() == ALPHABET_LEN,
        ascending(alphabet()),
{
    lemma_alphabet_is_table();
    assert forall|i: int| 0 <= i && i + 1 < alphabet().len() implies #[trigger] alphabet()[i]
        < alphabet()[i + 1] by {
        lemma_step(i);
    }
}

/// The alphabet is strictly ascending, and so holds no symbol twice.
pub proof fn lemma_alphabet_ascending(i: int, j: int)
    requires
        0 <= i < j < ALPHABET_LEN,
    ensures
        symbol(i) < symbol(j),
{
    lemma_table_ascending();
    lemma_ascending_order(alphabet(), i, j);
}

/// Two places of the alphabet that hold the same symbol are one place.
pub proof fn lemma_symbol_injective(i: int, j: int)
    requires
        0 <= i < ALPHABET_LEN,
        0 <= j < ALPHABET_LEN,
        symbol(i) == symbol(j),
    ensures
        i == j,
{
    if i < j {
        lemma_alphabet_ascending(i, j);
    } else if j < i {
        lemma_alphabet_ascending(j, i);
    }
}

/// Looking up the symbol of a value gives that value back.
pub proof fn lemma_index_of_symbol(index: int)
    requires
        0 <= index < ALPHABET_LEN,
    ensures
        is_symbol(symbol(index)),
        index_of_spec(symbol(index)) == Some(index as u16),
{
    let c = symbol(index);
    let found = choose|i: int| 0 <= i < ALPHABET_LEN && #[trigger] symbol(i) == c;
    lemma_symbol_injective(found, index);
}

/// A character has an index exactly when the alphabet holds it, and then the
/// alphabet holds it at that index.
pub proof fn lemma_index_of_sound(c: char)
    ensures
        match index_of_spec(c) {
            Some(i) => i < ALPHABET_LEN && symbol(i as int) == c && is_symbol(c),
            None => !alphabet().contains(c) && !is_symbol(c),
        },
{
    lemma_alphabet_is_table();
    if !is_symbol(c) {
        if alphabet().contains(c) {
            let i = choose|i: int| 0 <= i < alphabet().len() && alphabet()[i] == c;
            assert(symbol(i) == c);
        }
    }
}

/// Forward lookup: the symbol for a ten-bit value.
pub fn symbol_at(index: u16) -> (c: char)
    requires
        index < ALPHABET_LEN,
    ensures
        c == symbol(index as int),
{
    proof {
        lemma_alphabet_is_table();
    }
    KYOCODE_CHARS[index as usize]
}

/// Bisection over an ascending table: the place at which the table holds
/// `c`, or `None` where it does not hold it.
pub fn search(table: &[char], c: char) -> (r: Option<usize>)
    requires
        ascending(table@),
    ensures
        match r {
            Some(i) => i < table@.len() && table@[i as int] == c,
            None => !table@.contains(c),
        },
{
    let mut lo: usize = 0;
    let mut hi: usize = table.len();
    while lo < hi
        invariant
            lo <= hi <= table@.len(),
            ascending(table@),
            forall|i: int| 0 <= i < lo ==> table@[i] < c,
            forall|i: int| hi <= i < table@.len() ==> c < table@[i],
        decreases hi - lo,
    {
        let mid: usize = lo + (hi - lo) / 2;
        let s = table[mid];
        if s == c {
            return Some(mid);
        } else if s < c {
            proof {
                assert forall|i: int| 0 <= i < mid + 1 implies table@[i] < c by {
                    if i < mid {
                        lemma_ascending_order(table@, i, mid as int);
                    }
                }
            }
            lo = mid + 1;
        } else {
            proof {
                assert forall|i: int| mid <= i < table@.len() implies c < table@[i] by {
                    if mid < i {
                        lemma_ascending_order(table@, mid as int, i);
                    }
                }
            }
            hi = mid;
        }
    }
    None
}

/// Reverse lookup by bisection over the alphabet.
///
/// Returns the index at which the alphabet holds `c`, and `None` for every
/// character that it does not hold.
pub fn index_of(c: char) -> (r: Option<u16>)
    ensures
        r == index_of_spec(c),
        match r {
            Some(i) => i < ALPHABET_LEN && symbol(i as int) == c,
            None => !alphabet().contains(c),
        },
{
    proof {
        lemma_table_ascending();
        lemma_alphabet_is_table();
        lemma_index_of_sound(c);
    }
    match search(KYOCODE_CHARS.as_slice(), c) {
        Some(i) => {
            proof {
                lemma_index_of_symbol(i as int);
            }
            Some(i as u16)
        },
        None => None,
    }
}

} // verus!
