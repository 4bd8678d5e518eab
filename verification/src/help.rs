//! The built-in guide: six topics, each with a title and a Markdown body in
//! both languages.
//!
//! The text is held here, so the guide works offline and cannot fall out of
//! step with the build it ships in. Rendering it is the interface's part.
use crate::i18n::Lang;
use crate::textops::{chars_eq, chars_of};
use vstd::prelude::*;

verus! {

/// One topic of the guide.
#[derive(Debug, Clone, Copy)]
pub struct HelpTopic {
    pub id: &'static str,
    pub title_vi: &'static str,
    pub title_en: &'static str,
    pub vi: &'static str,
    pub en: &'static str,
}

impl HelpTopic {
    /// The topic's title in `lang`.
    pub fn title(&self, lang: Lang) -> (r: &'static str)
        ensures
            r@ == (if lang == Lang::Vi { self.title_vi@ } else { self.title_en@ }),
    {
        match lang {
            Lang::Vi => self.title_vi,
            Lang::En => self.title_en,
        }
    }

    /// The topic's Markdown text in `lang`.
    pub fn body(&self, lang: Lang) -> (r: &'static str)
        ensures
            r@ == (if lang == Lang::Vi { self.vi@ } else { self.en@ }),
    {
        match lang {
            Lang::Vi => self.vi,
            Lang::En => self.en,
        }
    }
}
pub const GETTING_STARTED_VI: &'static str = "# Bắt đầu

Ứng dụng này biên dịch và chạy các chương trình Fortran 77 của bạn mà không cần
đến cửa sổ dòng lệnh.

## Ba bước

1. Bấm **Chương trình mới** và đặt tên cho nó, ví dụ *Tính dầm*.
2. Bấm **Thêm tệp…** và chọn các tệp `.FOR` hoặc `.F` của bạn.
3. Bấm nút màu xanh **Biên dịch chương trình**.
4. Bấm **Lưu chương trình…** và chọn nơi cất giữ nó.

Nếu có gì sai, các thông báo sẽ hiện ở khung bên dưới kèm lời giải thích dễ
hiểu. Xem phần *Lưu và chạy chương trình* để biết cách chạy chương trình đã lưu.

## Ứng dụng không bao giờ sửa tệp của bạn

Các tệp mã nguồn của bạn chỉ được **đọc**. Ứng dụng chép chúng vào thư mục làm
việc riêng và biên dịch các bản chép. Tệp gốc của bạn vẫn nguyên vẹn, kể cả khi
biên dịch thất bại.

Đó cũng là lý do ứng dụng này **không có trình soạn thảo mã nguồn**. Để sửa mã,
hãy mở tệp bằng Notepad hoặc trình soạn thảo bạn vẫn quen dùng.
";
pub const GETTING_STARTED_EN: &'static str = "# Getting started

This application compiles and runs your Fortran 77 programs without needing a
command-line window.

## Three steps

1. Click **New program** and give it a name, for example *Beam calculation*.
2. Click **Add files…** and choose your `.FOR` or `.F` files.
3. Click the green **Compile program** button.
4. Click **Save the program…** and choose where to keep it.

If anything is wrong, the messages appear in the panel below with a plain-language
explanation. See *Saving and running* for how to run the program you saved.

## The application never changes your files

Your source files are only ever **read**. The application copies them into its own
working folder and compiles the copies. Your originals are untouched, even when
the build fails.

That is also why this application has **no source editor**. To change your code,
open the file in Notepad or whichever editor you already use.
";
pub const ADDING_FILES_VI: &'static str = "# Thêm và sắp xếp tệp

## Thứ tự rất quan trọng

Thứ tự các tệp trong danh sách chính là thứ tự biên dịch và liên kết, giống như
khi bạn tạo các tệp đối tượng rồi liên kết chúng lại bằng trình biên dịch cũ.
Dùng nút **Lên** và **Xuống** để sắp xếp. Thông thường nên đặt tệp chứa
`PROGRAM` lên đầu.

## Tệp `INCLUDE`

Nếu mã nguồn của bạn có câu lệnh `INCLUDE 'COMMON.INC'`, bạn **không cần** thêm
tệp `.INC` vào danh sách. Ứng dụng tự động tìm nó trong cùng thư mục với tệp mã
nguồn đã chọn.

## Khi tệp bị di chuyển

Nếu một tệp bị đổi chỗ hoặc đổi tên, dòng tương ứng sẽ hiện màu đỏ với chữ
*Không tìm thấy tệp*. Bấm **Tìm lại tệp…** để chỉ lại vị trí mới. Danh sách của
bạn không bao giờ bị tự động xoá.

## Tệp thư viện `.LIB` và `.A`

Nếu chương trình của bạn dùng thư viện đã biên dịch sẵn, hãy thêm nó vào mục
**Thư viện** chứ không phải vào danh sách mã nguồn. Xem phần *Thư viện đã biên
dịch sẵn* để biết thêm — đặc biệt nếu tệp `.LIB` của bạn được tạo từ thời DOS.
";
pub const ADDING_FILES_EN: &'static str = "# Adding and ordering files

## Order matters

The order of the files in the list is the compile and link order — the same as
building object files and then linking them with your old compiler. Use **Up** and
**Down** to arrange them. The file containing `PROGRAM` usually goes first.

## `INCLUDE` files

If your code contains `INCLUDE 'COMMON.INC'`, you do **not** need to add the
`.INC` file to the list. The application looks for it in the same folder as the
source files you chose.

## When a file moves

If a file is moved or renamed, its row turns red and says *File not found*. Click
**Locate file…** to point at its new place. Nothing is ever removed from your list
automatically.

## `.LIB` and `.A` library files

If your program uses a pre-compiled library, add it under **Libraries** rather
than to the source list. See *Pre-compiled libraries* for more — especially if
your `.LIB` came from a DOS-era compiler.
";
pub const SAVING_AND_RUNNING_VI: &'static str = "# Lưu và chạy chương trình

Ứng dụng này **biên dịch** chương trình cho bạn, nhưng không chạy nó. Sau khi
biên dịch xong, bạn tự quyết định lưu chương trình ở đâu và chạy khi nào.

## Lưu chương trình

Sau khi biên dịch thành công, bấm **Lưu chương trình…**. Một cửa sổ chọn thư mục
sẽ hiện ra. Hãy chọn nơi bạn muốn lưu, ví dụ thư mục **Tài liệu** hoặc ngay trên
**Màn hình nền (Desktop)**.

Nếu không lưu, tệp chương trình sẽ bị xoá khi bạn đóng ứng dụng, vì nó được tạo
ra trong thư mục làm việc tạm thời.

## Cách chạy chương trình

**Bấm đúp vào tệp `.EXE`.** Một cửa sổ đen hiện ra, chương trình chạy, rồi
**chờ bạn nhấn Enter** mới đóng lại, nên bạn có bao nhiêu thời gian tuỳ ý để đọc
kết quả.

Việc chờ này là một tuỳ chọn — **Chờ nhấn phím trước khi đóng cửa sổ** trong
**Tuỳ chọn nâng cao** — và nó được bật sẵn, trừ khi bạn tự tắt đi. Nó chỉ áp
dụng khi bạn bấm đúp vào chương trình. Nếu chạy từ Command Prompt hoặc từ một
tệp `.BAT` thì chương trình chạy xong là xong, không chờ gì cả, vì cửa sổ đó vốn
không tự đóng.

### Tệp `.BAT` mà ứng dụng đã tạo sẵn

Khi lưu chương trình, ứng dụng lưu kèm một tệp `.BAT` cùng tên ngay bên cạnh.
Bấm đúp vào tệp đó cũng cho kết quả tương tự, và vẫn dùng được kể cả khi sau này
bạn tắt tuỳ chọn chờ nhấn phím.

Nếu bạn không muốn tạo tệp này, hãy tắt tuỳ chọn trong **Cài đặt**.

### Cách khác: mở Command Prompt trong thư mục chứa chương trình

1. Mở thư mục bạn vừa lưu chương trình.
2. Bấm vào thanh địa chỉ ở phía trên, gõ `cmd` rồi nhấn **Enter**.
3. Một cửa sổ đen hiện ra. Gõ tên chương trình rồi nhấn **Enter**.

Cửa sổ này sẽ ở lại sau khi chương trình kết thúc, nên bạn đọc được kết quả và
nhập được số liệu khi chương trình yêu cầu.

## Tệp kết quả

Nếu chương trình ghi ra tệp kết quả bằng `OPEN` và `WRITE` với tên tệp không kèm
đường dẫn, tệp đó sẽ nằm trong **cùng thư mục nơi bạn chạy chương trình**.
";
pub const SAVING_AND_RUNNING_EN: &'static str = "# Saving and running your program

This application **compiles** your program for you, but it does not run it. Once
the build succeeds, you decide where to keep the program and when to run it.

## Saving the program

After a successful build, click **Save the program…**. A folder chooser appears.
Pick where you want to keep it — your **Documents** folder, or the **Desktop**.

If you do not save it, the file is deleted when you close the application,
because it is built in a temporary working folder.

## How to run it

A Fortran program is a **command-line** program. If you double-click it in
Windows Explorer, a black window appears, the program runs, and the window
**closes immediately** — too fast to read the results.

There are two ways to see the output:

### Option 1: open a Command Prompt in the folder

1. Open the folder where you saved the program.
2. Click the address bar at the top, type `cmd`, and press **Enter**.
3. A black window appears. Type the program's name and press **Enter**.

That window stays open after the program finishes, so you can read the results
and type in data when the program asks for it.

### Option 2: make a `.bat` file to run it

Create a text file in the same folder, named for example `run.bat`, containing:

```
@echo off
YourProgram.exe
pause
```

Replace `YourProgram.exe` with your program's name. From then on, just
double-click `run.bat`. The `pause` line keeps the window open until you press a
key.

## Output files

If the program writes results with `OPEN` and `WRITE` using a plain file name,
that file lands in **the folder you ran the program from**.
";
pub const COMMON_ERRORS_VI: &'static str = "# Các lỗi thường gặp

## “Line truncated” — dòng bị cắt

Fortran 77 chuẩn chỉ đọc đến **cột 72**. Nếu mã nguồn của bạn viết dài hơn, hãy
mở **Tuỳ chọn nâng cao** và đổi *Độ dài dòng* thành **132 cột**.

Ngược lại, nếu tệp của bạn có đánh số thứ tự ở cột 73–80 (thói quen thời dùng
phiếu đục lỗ), hãy giữ nguyên 72 cột. Đặt *Không giới hạn* sẽ khiến các số thứ
tự đó bị hiểu nhầm là mã lệnh và sinh ra lỗi.

## “Symbol has no IMPLICIT type”

Có một biến chưa được khai báo kiểu, thường là do gõ sai tên biến.

## “undefined reference to …”

Trình liên kết không tìm thấy một chương trình con. Nguyên nhân phổ biến nhất
là **bạn quên thêm một tệp** vào danh sách.

## Kết quả khác với ngày xưa

Các trình biên dịch thời DOS lưu biến cục bộ ở vùng nhớ tĩnh và tự đặt bằng 0.
Hãy bật tuỳ chọn *Biến cục bộ tĩnh và khởi tạo bằng 0* (mặc định đã bật).

## “STRUCTURE”, “RECORD”, “UNION”

Đây là phần mở rộng của Microsoft Fortran và DEC. Hãy bật tuỳ chọn
*Phần mở rộng DEC/Microsoft* (mặc định đã bật).

## Chương trình dừng đột ngột

Nếu mã lỗi là tràn ngăn xếp, chương trình có mảng cục bộ quá lớn. Hãy bật tuỳ
chọn **Mảng lớn**.
";
pub const COMMON_ERRORS_EN: &'static str = "# Common errors

## “Line truncated”

Standard Fortran 77 only reads to **column 72**. If your code is written wider,
open **Advanced options** and set *Line length* to **132 columns**.

Conversely, if your files carry sequence numbers in columns 73–80 (the punched-card
habit), leave it at 72. Setting *Unlimited* makes those sequence numbers be read as
code, which produces errors.

## “Symbol has no IMPLICIT type”

A variable has no declared type — usually a misspelled variable name.

## “undefined reference to …”

The linker could not find a subroutine. By far the most common cause is that
**a file is missing** from the list.

## The numbers differ from the old results

DOS-era compilers kept local variables in static storage and zeroed them. Turn on
*Static, zero-initialised local variables* (it is on by default).

## “STRUCTURE”, “RECORD”, “UNION”

These are Microsoft Fortran and DEC extensions. Turn on *DEC/Microsoft extensions*
(it is on by default).

## The program stops suddenly

If the exit code is a stack overflow, the program has a very large local array.
Turn on **Large arrays**.
";
pub const SECURITY_WARNINGS_VI: &'static str = "# Cảnh báo bảo mật và phần mềm diệt virus

## “Windows đã bảo vệ PC của bạn”

Lần đầu chạy bộ cài đặt, Windows có thể hiện một hộp thoại màu xanh với dòng chữ
*Windows protected your PC*. Điều này **không** có nghĩa là có virus. Nó chỉ có
nghĩa là phần mềm này chưa được nhiều người tải về nên Windows chưa quen.

Cách tiếp tục:

1. Bấm dòng chữ nhỏ **More info** (Thông tin thêm).
2. Bấm nút **Run anyway** (Vẫn chạy).

## Phần mềm diệt virus xoá mất trình biên dịch

Trình biên dịch Fortran gồm nhiều tệp chương trình nhỏ, trong đó có `f951.exe` và
`collect2.exe`. Một số phần mềm diệt virus đôi khi nhận nhầm các tệp này là nguy
hiểm và xoá chúng đi. Đây là lỗi nhận dạng nhầm đã được biết đến từ lâu.

Nếu ứng dụng báo *Trình biên dịch đi kèm bị thiếu hoặc hỏng*, nhiều khả năng đây
là nguyên nhân. Cách khôi phục trên Windows:

1. Mở **Windows Security** (Bảo mật Windows).
2. Vào **Virus & threat protection** → **Protection history** (Lịch sử bảo vệ).
3. Tìm mục liên quan đến Easy Fortran 77 và chọn **Restore** (Khôi phục).
4. Mở lại ứng dụng.

Nếu không khôi phục được, hãy cài đặt lại ứng dụng.

> **Lưu ý:** ứng dụng này sẽ không bao giờ tự thêm ngoại lệ vào phần mềm diệt
> virus của bạn. Việc đó phải do bạn tự quyết định.

## Ứng dụng này làm gì với tệp của bạn

Ứng dụng chỉ **đọc** các tệp mã nguồn bạn chọn. Mọi tệp do quá trình biên dịch
tạo ra đều nằm trong thư mục làm việc riêng của ứng dụng.

Chương trình do bạn biên dịch thì khác: nó là chương trình của bạn và có thể ghi
tệp ở bất cứ đâu mà mã nguồn chỉ định. Hãy chỉ chạy những mã nguồn mà bạn tin
tưởng, giống như với bất kỳ chương trình nào khác.
";
pub const SECURITY_WARNINGS_EN: &'static str = "# Security warnings and antivirus

## “Windows protected your PC”

The first time you run the installer, Windows may show a blue dialog saying
*Windows protected your PC*. This does **not** mean there is a virus. It means
few people have downloaded this program yet, so Windows does not recognise it.

To continue:

1. Click the small **More info** link.
2. Click **Run anyway**.

## Antivirus removing part of the compiler

A Fortran compiler is made of several small programs, among them `f951.exe` and
`collect2.exe`. Some antivirus products occasionally mistake these for something
dangerous and delete them. This is a long-known false positive.

If the application reports *The bundled compiler is missing or damaged*, this is
the likely cause. To restore it on Windows:

1. Open **Windows Security**.
2. Go to **Virus & threat protection** → **Protection history**.
3. Find the entry mentioning Easy Fortran 77 and choose **Restore**.
4. Start the application again.

If it cannot be restored, reinstall the application.

> **Note:** this application will never add an exclusion to your antivirus for
> you. That has to be your decision.

## What this application does with your files

It only ever **reads** the source files you choose. Everything the build produces
goes into the application's own working folder.

The program you compile is different: it is your program, and it can write files
wherever its code says to. Run only source code you trust, as with any other
program.
";
pub const LIBRARIES_VI: &'static str = "# Thư viện đã biên dịch sẵn

## Khi nào cần đến mục này

Hầu hết chương trình chỉ cần các tệp mã nguồn `.FOR`. Nhưng đôi khi một phần mã
đã được biên dịch sẵn thành **tệp thư viện** — thường có đuôi `.LIB` hoặc `.A` —
và chương trình chỉ gọi đến chứ không chứa mã đó. Nếu vậy, hãy thêm tệp thư viện
vào mục **Thư viện**.

Nếu chương trình của bạn không có tệp như vậy, hãy bỏ qua mục này.

## Thứ tự

Thư viện luôn được liên kết **sau** các tệp mã nguồn. Nếu bạn có nhiều thư viện
và chúng gọi lẫn nhau, hãy dùng nút **Lên** và **Xuống** để sắp xếp: thư viện
được gọi phải nằm **dưới** thư viện gọi nó.

## Thư viện từ trình biên dịch thời DOS

Đây là điều quan trọng nhất cần biết, và là điều làm nhiều người mất thời gian.

Các tệp `.LIB` tạo bằng trình biên dịch thời DOS — Microsoft Fortran, Lahey,
Watcom và các trình tương tự — được lưu theo một định dạng cũ tên là **OMF**.
Trình biên dịch Fortran trong ứng dụng này chỉ đọc được định dạng hiện đại. Đây
không phải là lỗi, cũng không phải là thứ có thể sửa bằng một tuỳ chọn nào đó:
hai định dạng này đơn giản là khác nhau, và phần lớn thư viện thời DOS còn được
tạo cho máy 16-bit vốn không còn tồn tại nữa.

Khi bạn thêm một tệp như vậy, ứng dụng sẽ báo ngay chứ không để bạn chờ đến lúc
biên dịch rồi mới hiện một thông báo khó hiểu.

### Trường hợp thường gặp nhất: thư viện của chính trình biên dịch cũ

Nếu các tệp `.LIB` của bạn nằm cùng thư mục với trình biên dịch cũ và có tên
kiểu như `FORTRAN.LIB`, `MATH.LIB`, `ALTMATH.LIB` hay `DECMATH.LIB`, thì đó
**không phải mã của bạn**. Đó là thư viện chạy kèm của chính trình biên dịch cũ —
phần lo việc đọc ghi tệp, tính toán số thực và khởi động chương trình.

Bạn **không cần** những tệp đó. Ứng dụng này đã có sẵn trình biên dịch Fortran
riêng, kèm theo phần tương đương hiện đại. Chỉ cần thêm các tệp `.FOR` của bạn và
bấm biên dịch; ứng dụng lo phần còn lại.

Khi bạn thêm một tệp như vậy, ứng dụng sẽ nhận ra và nói rõ điều này.

### Vậy phải làm sao

Bạn cần **các tệp mã nguồn Fortran gốc** đã được dùng để tạo ra thư viện đó —
thường cũng là các tệp `.FOR` nằm cùng thư mục, hoặc trong một thư mục tên kiểu
như `SOURCE` hay `SRC`. Hãy thêm các tệp đó vào mục **Tệp mã nguồn** như bình
thường; ứng dụng sẽ biên dịch lại chúng và bạn không cần tệp `.LIB` nữa.

Nếu không còn mã nguồn, phần chức năng nằm trong thư viện đó sẽ phải viết lại.
Không có cách nào chuyển đổi tệp `.LIB` cũ sang dùng được.

## Các thông báo khác

- *Thư viện này được tạo cho một hệ điều hành khác* — tệp dành cho Linux nhưng
  bạn đang tạo chương trình Windows, hoặc ngược lại.
- *Được tạo cho bộ xử lý khác* — thường là thư viện 32-bit trong khi chương trình
  là 64-bit. Cần bản thư viện đúng loại.
- *Tệp này không phải là thư viện đã biên dịch* — rất có thể bạn chọn nhầm một
  tệp mã nguồn. Hãy thêm nó vào mục **Tệp mã nguồn**.

## Ứng dụng không bao giờ sửa tệp của bạn

Giống như tệp mã nguồn, tệp thư viện chỉ được **đọc**. Ứng dụng sao chép nội dung
vào thư mục làm việc riêng của nó để biên dịch, và không bao giờ ghi đè lên tệp
gốc của bạn.
";
pub const LIBRARIES_EN: &'static str = "# Pre-compiled libraries

## When you need this

Most programs need only their `.FOR` source files. Sometimes, though, part of the
code has already been compiled into a **library file** — usually ending in `.LIB`
or `.A` — and the program only calls into it. When that is the case, add the
library file under **Libraries**.

If your program has no such file, you can ignore this section.

## Order

Libraries are always linked **after** the source files. If you have several that
call one another, use **Up** and **Down** to order them: a library must appear
*below* whatever calls into it.

## Libraries from a DOS-era compiler

This is the most important thing to know, and the thing that costs people the
most time.

A `.LIB` file produced by a DOS-era compiler — Microsoft Fortran, Lahey, Watcom
and their contemporaries — is stored in an old format called **OMF**. The Fortran
compiler in this application reads only the modern format. This is not a fault
and not something a setting can change: the two formats are simply different, and
most DOS-era libraries were additionally built for 16-bit machines that no longer
exist.

When you add such a file the application says so immediately, rather than letting
you wait for a build and then showing an error that explains nothing.

### The most common case: the old compiler's own library

If your `.LIB` files sit in the same folder as the old compiler and have names
like `FORTRAN.LIB`, `MATH.LIB`, `ALTMATH.LIB` or `DECMATH.LIB`, they are **not
your code**. They are the old compiler's own runtime library — the part that
handled reading and writing files, floating-point arithmetic and program startup.

You do **not** need them. This application brings its own Fortran compiler, which
includes the modern equivalent. Just add your `.FOR` files and press compile.

The application recognises these files and says so when you add one.

### What to do instead

You need the **original Fortran source files** the library was built from —
usually more `.FOR` files, in the same folder or in one called something like
`SOURCE` or `SRC`. Add those under **Source files** as normal; the application
compiles them again and the `.LIB` is no longer needed.

If the source is genuinely gone, the code in that library has to be rewritten.
There is no way to convert an old `.LIB` into something usable.

## The other messages

- *Built for a different operating system* — the file is for Linux while you are
  building a Windows program, or the other way round.
- *Built for a different processor* — usually a 32-bit library against a 64-bit
  program. You need the matching build of the library.
- *This file is not a compiled library* — most likely a source file chosen by
  mistake. Add it under **Source files**.

## Your files are never modified

Like source files, library files are only ever **read**. The application copies
the contents into its own working folder to compile, and never writes over your
original.
";
/// The guide, in the order it is shown.
pub open spec fn guide() -> Seq<HelpTopic> {
    seq![
        HelpTopic {
            id: "01-bat-dau",
            title_vi: "Bắt đầu",
            title_en: "Getting started",
            vi: GETTING_STARTED_VI,
            en: GETTING_STARTED_EN,
        },
        HelpTopic {
            id: "02-them-tep",
            title_vi: "Thêm và sắp xếp tệp",
            title_en: "Adding and ordering files",
            vi: ADDING_FILES_VI,
            en: ADDING_FILES_EN,
        },
        HelpTopic {
            id: "03-luu-va-chay",
            title_vi: "Lưu và chạy chương trình",
            title_en: "Saving and running",
            vi: SAVING_AND_RUNNING_VI,
            en: SAVING_AND_RUNNING_EN,
        },
        HelpTopic {
            id: "04-loi-thuong-gap",
            title_vi: "Lỗi thường gặp",
            title_en: "Common errors",
            vi: COMMON_ERRORS_VI,
            en: COMMON_ERRORS_EN,
        },
        HelpTopic {
            id: "05-canh-bao-bao-mat",
            title_vi: "Cảnh báo bảo mật",
            title_en: "Security warnings",
            vi: SECURITY_WARNINGS_VI,
            en: SECURITY_WARNINGS_EN,
        },
        HelpTopic {
            id: "06-thu-vien",
            title_vi: "Thư viện đã biên dịch sẵn",
            title_en: "Pre-compiled libraries",
            vi: LIBRARIES_VI,
            en: LIBRARIES_EN,
        },
    ]
}

/// A Markdown body that is not empty and opens with a heading.
pub open spec fn opens_with_heading(s: Seq<char>) -> bool {
    s.len() > 0 && s[0] == '#'
}

/// No two topics share an id.
pub open spec fn ids_distinct(t: Seq<HelpTopic>) -> bool {
    forall|i: int, j: int| 0 <= i < j < t.len() ==> #[trigger] t[i].id@ != #[trigger] t[j].id@
}

/// The guide's ids differ and each body opens with a heading. The verifier
/// knows a string literal's characters only where that literal is revealed,
/// so each id and each body is written out once more here; a body edited in
/// one place and not the other no longer matches its constant, and the proof
/// fails.
proof fn lemma_guide_is_well_formed()
    ensures
        ids_distinct(guide()),
        forall|i: int|
            0 <= i < guide().len() ==> opens_with_heading(#[trigger] guide()[i].vi@)
                && opens_with_heading(guide()[i].en@),
{
    reveal_strlit("01-bat-dau");
    reveal_strlit("02-them-tep");
    reveal_strlit("03-luu-va-chay");
    reveal_strlit("04-loi-thuong-gap");
    reveal_strlit("05-canh-bao-bao-mat");
    reveal_strlit("06-thu-vien");
    reveal_strlit("# Bắt đầu

Ứng dụng này biên dịch và chạy các chương trình Fortran 77 của bạn mà không cần
đến cửa sổ dòng lệnh.

## Ba bước

1. Bấm **Chương trình mới** và đặt tên cho nó, ví dụ *Tính dầm*.
2. Bấm **Thêm tệp…** và chọn các tệp `.FOR` hoặc `.F` của bạn.
3. Bấm nút màu xanh **Biên dịch chương trình**.
4. Bấm **Lưu chương trình…** và chọn nơi cất giữ nó.

Nếu có gì sai, các thông báo sẽ hiện ở khung bên dưới kèm lời giải thích dễ
hiểu. Xem phần *Lưu và chạy chương trình* để biết cách chạy chương trình đã lưu.

## Ứng dụng không bao giờ sửa tệp của bạn

Các tệp mã nguồn của bạn chỉ được **đọc**. Ứng dụng chép chúng vào thư mục làm
việc riêng và biên dịch các bản chép. Tệp gốc của bạn vẫn nguyên vẹn, kể cả khi
biên dịch thất bại.

Đó cũng là lý do ứng dụng này **không có trình soạn thảo mã nguồn**. Để sửa mã,
hãy mở tệp bằng Notepad hoặc trình soạn thảo bạn vẫn quen dùng.
");
    reveal_strlit("# Getting started

This application compiles and runs your Fortran 77 programs without needing a
command-line window.

## Three steps

1. Click **New program** and give it a name, for example *Beam calculation*.
2. Click **Add files…** and choose your `.FOR` or `.F` files.
3. Click the green **Compile program** button.
4. Click **Save the program…** and choose where to keep it.

If anything is wrong, the messages appear in the panel below with a plain-language
explanation. See *Saving and running* for how to run the program you saved.

## The application never changes your files

Your source files are only ever **read**. The application copies them into its own
working folder and compiles the copies. Your originals are untouched, even when
the build fails.

That is also why this application has **no source editor**. To change your code,
open the file in Notepad or whichever editor you already use.
");
    reveal_strlit("# Thêm và sắp xếp tệp

## Thứ tự rất quan trọng

Thứ tự các tệp trong danh sách chính là thứ tự biên dịch và liên kết, giống như
khi bạn tạo các tệp đối tượng rồi liên kết chúng lại bằng trình biên dịch cũ.
Dùng nút **Lên** và **Xuống** để sắp xếp. Thông thường nên đặt tệp chứa
`PROGRAM` lên đầu.

## Tệp `INCLUDE`

Nếu mã nguồn của bạn có câu lệnh `INCLUDE 'COMMON.INC'`, bạn **không cần** thêm
tệp `.INC` vào danh sách. Ứng dụng tự động tìm nó trong cùng thư mục với tệp mã
nguồn đã chọn.

## Khi tệp bị di chuyển

Nếu một tệp bị đổi chỗ hoặc đổi tên, dòng tương ứng sẽ hiện màu đỏ với chữ
*Không tìm thấy tệp*. Bấm **Tìm lại tệp…** để chỉ lại vị trí mới. Danh sách của
bạn không bao giờ bị tự động xoá.

## Tệp thư viện `.LIB` và `.A`

Nếu chương trình của bạn dùng thư viện đã biên dịch sẵn, hãy thêm nó vào mục
**Thư viện** chứ không phải vào danh sách mã nguồn. Xem phần *Thư viện đã biên
dịch sẵn* để biết thêm — đặc biệt nếu tệp `.LIB` của bạn được tạo từ thời DOS.
");
    reveal_strlit("# Adding and ordering files

## Order matters

The order of the files in the list is the compile and link order — the same as
building object files and then linking them with your old compiler. Use **Up** and
**Down** to arrange them. The file containing `PROGRAM` usually goes first.

## `INCLUDE` files

If your code contains `INCLUDE 'COMMON.INC'`, you do **not** need to add the
`.INC` file to the list. The application looks for it in the same folder as the
source files you chose.

## When a file moves

If a file is moved or renamed, its row turns red and says *File not found*. Click
**Locate file…** to point at its new place. Nothing is ever removed from your list
automatically.

## `.LIB` and `.A` library files

If your program uses a pre-compiled library, add it under **Libraries** rather
than to the source list. See *Pre-compiled libraries* for more — especially if
your `.LIB` came from a DOS-era compiler.
");
    reveal_strlit("# Lưu và chạy chương trình

Ứng dụng này **biên dịch** chương trình cho bạn, nhưng không chạy nó. Sau khi
biên dịch xong, bạn tự quyết định lưu chương trình ở đâu và chạy khi nào.

## Lưu chương trình

Sau khi biên dịch thành công, bấm **Lưu chương trình…**. Một cửa sổ chọn thư mục
sẽ hiện ra. Hãy chọn nơi bạn muốn lưu, ví dụ thư mục **Tài liệu** hoặc ngay trên
**Màn hình nền (Desktop)**.

Nếu không lưu, tệp chương trình sẽ bị xoá khi bạn đóng ứng dụng, vì nó được tạo
ra trong thư mục làm việc tạm thời.

## Cách chạy chương trình

**Bấm đúp vào tệp `.EXE`.** Một cửa sổ đen hiện ra, chương trình chạy, rồi
**chờ bạn nhấn Enter** mới đóng lại, nên bạn có bao nhiêu thời gian tuỳ ý để đọc
kết quả.

Việc chờ này là một tuỳ chọn — **Chờ nhấn phím trước khi đóng cửa sổ** trong
**Tuỳ chọn nâng cao** — và nó được bật sẵn, trừ khi bạn tự tắt đi. Nó chỉ áp
dụng khi bạn bấm đúp vào chương trình. Nếu chạy từ Command Prompt hoặc từ một
tệp `.BAT` thì chương trình chạy xong là xong, không chờ gì cả, vì cửa sổ đó vốn
không tự đóng.

### Tệp `.BAT` mà ứng dụng đã tạo sẵn

Khi lưu chương trình, ứng dụng lưu kèm một tệp `.BAT` cùng tên ngay bên cạnh.
Bấm đúp vào tệp đó cũng cho kết quả tương tự, và vẫn dùng được kể cả khi sau này
bạn tắt tuỳ chọn chờ nhấn phím.

Nếu bạn không muốn tạo tệp này, hãy tắt tuỳ chọn trong **Cài đặt**.

### Cách khác: mở Command Prompt trong thư mục chứa chương trình

1. Mở thư mục bạn vừa lưu chương trình.
2. Bấm vào thanh địa chỉ ở phía trên, gõ `cmd` rồi nhấn **Enter**.
3. Một cửa sổ đen hiện ra. Gõ tên chương trình rồi nhấn **Enter**.

Cửa sổ này sẽ ở lại sau khi chương trình kết thúc, nên bạn đọc được kết quả và
nhập được số liệu khi chương trình yêu cầu.

## Tệp kết quả

Nếu chương trình ghi ra tệp kết quả bằng `OPEN` và `WRITE` với tên tệp không kèm
đường dẫn, tệp đó sẽ nằm trong **cùng thư mục nơi bạn chạy chương trình**.
");
    reveal_strlit("# Saving and running your program

This application **compiles** your program for you, but it does not run it. Once
the build succeeds, you decide where to keep the program and when to run it.

## Saving the program

After a successful build, click **Save the program…**. A folder chooser appears.
Pick where you want to keep it — your **Documents** folder, or the **Desktop**.

If you do not save it, the file is deleted when you close the application,
because it is built in a temporary working folder.

## How to run it

A Fortran program is a **command-line** program. If you double-click it in
Windows Explorer, a black window appears, the program runs, and the window
**closes immediately** — too fast to read the results.

There are two ways to see the output:

### Option 1: open a Command Prompt in the folder

1. Open the folder where you saved the program.
2. Click the address bar at the top, type `cmd`, and press **Enter**.
3. A black window appears. Type the program's name and press **Enter**.

That window stays open after the program finishes, so you can read the results
and type in data when the program asks for it.

### Option 2: make a `.bat` file to run it

Create a text file in the same folder, named for example `run.bat`, containing:

```
@echo off
YourProgram.exe
pause
```

Replace `YourProgram.exe` with your program's name. From then on, just
double-click `run.bat`. The `pause` line keeps the window open until you press a
key.

## Output files

If the program writes results with `OPEN` and `WRITE` using a plain file name,
that file lands in **the folder you ran the program from**.
");
    reveal_strlit("# Các lỗi thường gặp

## “Line truncated” — dòng bị cắt

Fortran 77 chuẩn chỉ đọc đến **cột 72**. Nếu mã nguồn của bạn viết dài hơn, hãy
mở **Tuỳ chọn nâng cao** và đổi *Độ dài dòng* thành **132 cột**.

Ngược lại, nếu tệp của bạn có đánh số thứ tự ở cột 73–80 (thói quen thời dùng
phiếu đục lỗ), hãy giữ nguyên 72 cột. Đặt *Không giới hạn* sẽ khiến các số thứ
tự đó bị hiểu nhầm là mã lệnh và sinh ra lỗi.

## “Symbol has no IMPLICIT type”

Có một biến chưa được khai báo kiểu, thường là do gõ sai tên biến.

## “undefined reference to …”

Trình liên kết không tìm thấy một chương trình con. Nguyên nhân phổ biến nhất
là **bạn quên thêm một tệp** vào danh sách.

## Kết quả khác với ngày xưa

Các trình biên dịch thời DOS lưu biến cục bộ ở vùng nhớ tĩnh và tự đặt bằng 0.
Hãy bật tuỳ chọn *Biến cục bộ tĩnh và khởi tạo bằng 0* (mặc định đã bật).

## “STRUCTURE”, “RECORD”, “UNION”

Đây là phần mở rộng của Microsoft Fortran và DEC. Hãy bật tuỳ chọn
*Phần mở rộng DEC/Microsoft* (mặc định đã bật).

## Chương trình dừng đột ngột

Nếu mã lỗi là tràn ngăn xếp, chương trình có mảng cục bộ quá lớn. Hãy bật tuỳ
chọn **Mảng lớn**.
");
    reveal_strlit("# Common errors

## “Line truncated”

Standard Fortran 77 only reads to **column 72**. If your code is written wider,
open **Advanced options** and set *Line length* to **132 columns**.

Conversely, if your files carry sequence numbers in columns 73–80 (the punched-card
habit), leave it at 72. Setting *Unlimited* makes those sequence numbers be read as
code, which produces errors.

## “Symbol has no IMPLICIT type”

A variable has no declared type — usually a misspelled variable name.

## “undefined reference to …”

The linker could not find a subroutine. By far the most common cause is that
**a file is missing** from the list.

## The numbers differ from the old results

DOS-era compilers kept local variables in static storage and zeroed them. Turn on
*Static, zero-initialised local variables* (it is on by default).

## “STRUCTURE”, “RECORD”, “UNION”

These are Microsoft Fortran and DEC extensions. Turn on *DEC/Microsoft extensions*
(it is on by default).

## The program stops suddenly

If the exit code is a stack overflow, the program has a very large local array.
Turn on **Large arrays**.
");
    reveal_strlit("# Cảnh báo bảo mật và phần mềm diệt virus

## “Windows đã bảo vệ PC của bạn”

Lần đầu chạy bộ cài đặt, Windows có thể hiện một hộp thoại màu xanh với dòng chữ
*Windows protected your PC*. Điều này **không** có nghĩa là có virus. Nó chỉ có
nghĩa là phần mềm này chưa được nhiều người tải về nên Windows chưa quen.

Cách tiếp tục:

1. Bấm dòng chữ nhỏ **More info** (Thông tin thêm).
2. Bấm nút **Run anyway** (Vẫn chạy).

## Phần mềm diệt virus xoá mất trình biên dịch

Trình biên dịch Fortran gồm nhiều tệp chương trình nhỏ, trong đó có `f951.exe` và
`collect2.exe`. Một số phần mềm diệt virus đôi khi nhận nhầm các tệp này là nguy
hiểm và xoá chúng đi. Đây là lỗi nhận dạng nhầm đã được biết đến từ lâu.

Nếu ứng dụng báo *Trình biên dịch đi kèm bị thiếu hoặc hỏng*, nhiều khả năng đây
là nguyên nhân. Cách khôi phục trên Windows:

1. Mở **Windows Security** (Bảo mật Windows).
2. Vào **Virus & threat protection** → **Protection history** (Lịch sử bảo vệ).
3. Tìm mục liên quan đến Easy Fortran 77 và chọn **Restore** (Khôi phục).
4. Mở lại ứng dụng.

Nếu không khôi phục được, hãy cài đặt lại ứng dụng.

> **Lưu ý:** ứng dụng này sẽ không bao giờ tự thêm ngoại lệ vào phần mềm diệt
> virus của bạn. Việc đó phải do bạn tự quyết định.

## Ứng dụng này làm gì với tệp của bạn

Ứng dụng chỉ **đọc** các tệp mã nguồn bạn chọn. Mọi tệp do quá trình biên dịch
tạo ra đều nằm trong thư mục làm việc riêng của ứng dụng.

Chương trình do bạn biên dịch thì khác: nó là chương trình của bạn và có thể ghi
tệp ở bất cứ đâu mà mã nguồn chỉ định. Hãy chỉ chạy những mã nguồn mà bạn tin
tưởng, giống như với bất kỳ chương trình nào khác.
");
    reveal_strlit("# Security warnings and antivirus

## “Windows protected your PC”

The first time you run the installer, Windows may show a blue dialog saying
*Windows protected your PC*. This does **not** mean there is a virus. It means
few people have downloaded this program yet, so Windows does not recognise it.

To continue:

1. Click the small **More info** link.
2. Click **Run anyway**.

## Antivirus removing part of the compiler

A Fortran compiler is made of several small programs, among them `f951.exe` and
`collect2.exe`. Some antivirus products occasionally mistake these for something
dangerous and delete them. This is a long-known false positive.

If the application reports *The bundled compiler is missing or damaged*, this is
the likely cause. To restore it on Windows:

1. Open **Windows Security**.
2. Go to **Virus & threat protection** → **Protection history**.
3. Find the entry mentioning Easy Fortran 77 and choose **Restore**.
4. Start the application again.

If it cannot be restored, reinstall the application.

> **Note:** this application will never add an exclusion to your antivirus for
> you. That has to be your decision.

## What this application does with your files

It only ever **reads** the source files you choose. Everything the build produces
goes into the application's own working folder.

The program you compile is different: it is your program, and it can write files
wherever its code says to. Run only source code you trust, as with any other
program.
");
    reveal_strlit("# Thư viện đã biên dịch sẵn

## Khi nào cần đến mục này

Hầu hết chương trình chỉ cần các tệp mã nguồn `.FOR`. Nhưng đôi khi một phần mã
đã được biên dịch sẵn thành **tệp thư viện** — thường có đuôi `.LIB` hoặc `.A` —
và chương trình chỉ gọi đến chứ không chứa mã đó. Nếu vậy, hãy thêm tệp thư viện
vào mục **Thư viện**.

Nếu chương trình của bạn không có tệp như vậy, hãy bỏ qua mục này.

## Thứ tự

Thư viện luôn được liên kết **sau** các tệp mã nguồn. Nếu bạn có nhiều thư viện
và chúng gọi lẫn nhau, hãy dùng nút **Lên** và **Xuống** để sắp xếp: thư viện
được gọi phải nằm **dưới** thư viện gọi nó.

## Thư viện từ trình biên dịch thời DOS

Đây là điều quan trọng nhất cần biết, và là điều làm nhiều người mất thời gian.

Các tệp `.LIB` tạo bằng trình biên dịch thời DOS — Microsoft Fortran, Lahey,
Watcom và các trình tương tự — được lưu theo một định dạng cũ tên là **OMF**.
Trình biên dịch Fortran trong ứng dụng này chỉ đọc được định dạng hiện đại. Đây
không phải là lỗi, cũng không phải là thứ có thể sửa bằng một tuỳ chọn nào đó:
hai định dạng này đơn giản là khác nhau, và phần lớn thư viện thời DOS còn được
tạo cho máy 16-bit vốn không còn tồn tại nữa.

Khi bạn thêm một tệp như vậy, ứng dụng sẽ báo ngay chứ không để bạn chờ đến lúc
biên dịch rồi mới hiện một thông báo khó hiểu.

### Trường hợp thường gặp nhất: thư viện của chính trình biên dịch cũ

Nếu các tệp `.LIB` của bạn nằm cùng thư mục với trình biên dịch cũ và có tên
kiểu như `FORTRAN.LIB`, `MATH.LIB`, `ALTMATH.LIB` hay `DECMATH.LIB`, thì đó
**không phải mã của bạn**. Đó là thư viện chạy kèm của chính trình biên dịch cũ —
phần lo việc đọc ghi tệp, tính toán số thực và khởi động chương trình.

Bạn **không cần** những tệp đó. Ứng dụng này đã có sẵn trình biên dịch Fortran
riêng, kèm theo phần tương đương hiện đại. Chỉ cần thêm các tệp `.FOR` của bạn và
bấm biên dịch; ứng dụng lo phần còn lại.

Khi bạn thêm một tệp như vậy, ứng dụng sẽ nhận ra và nói rõ điều này.

### Vậy phải làm sao

Bạn cần **các tệp mã nguồn Fortran gốc** đã được dùng để tạo ra thư viện đó —
thường cũng là các tệp `.FOR` nằm cùng thư mục, hoặc trong một thư mục tên kiểu
như `SOURCE` hay `SRC`. Hãy thêm các tệp đó vào mục **Tệp mã nguồn** như bình
thường; ứng dụng sẽ biên dịch lại chúng và bạn không cần tệp `.LIB` nữa.

Nếu không còn mã nguồn, phần chức năng nằm trong thư viện đó sẽ phải viết lại.
Không có cách nào chuyển đổi tệp `.LIB` cũ sang dùng được.

## Các thông báo khác

- *Thư viện này được tạo cho một hệ điều hành khác* — tệp dành cho Linux nhưng
  bạn đang tạo chương trình Windows, hoặc ngược lại.
- *Được tạo cho bộ xử lý khác* — thường là thư viện 32-bit trong khi chương trình
  là 64-bit. Cần bản thư viện đúng loại.
- *Tệp này không phải là thư viện đã biên dịch* — rất có thể bạn chọn nhầm một
  tệp mã nguồn. Hãy thêm nó vào mục **Tệp mã nguồn**.

## Ứng dụng không bao giờ sửa tệp của bạn

Giống như tệp mã nguồn, tệp thư viện chỉ được **đọc**. Ứng dụng sao chép nội dung
vào thư mục làm việc riêng của nó để biên dịch, và không bao giờ ghi đè lên tệp
gốc của bạn.
");
    reveal_strlit("# Pre-compiled libraries

## When you need this

Most programs need only their `.FOR` source files. Sometimes, though, part of the
code has already been compiled into a **library file** — usually ending in `.LIB`
or `.A` — and the program only calls into it. When that is the case, add the
library file under **Libraries**.

If your program has no such file, you can ignore this section.

## Order

Libraries are always linked **after** the source files. If you have several that
call one another, use **Up** and **Down** to order them: a library must appear
*below* whatever calls into it.

## Libraries from a DOS-era compiler

This is the most important thing to know, and the thing that costs people the
most time.

A `.LIB` file produced by a DOS-era compiler — Microsoft Fortran, Lahey, Watcom
and their contemporaries — is stored in an old format called **OMF**. The Fortran
compiler in this application reads only the modern format. This is not a fault
and not something a setting can change: the two formats are simply different, and
most DOS-era libraries were additionally built for 16-bit machines that no longer
exist.

When you add such a file the application says so immediately, rather than letting
you wait for a build and then showing an error that explains nothing.

### The most common case: the old compiler's own library

If your `.LIB` files sit in the same folder as the old compiler and have names
like `FORTRAN.LIB`, `MATH.LIB`, `ALTMATH.LIB` or `DECMATH.LIB`, they are **not
your code**. They are the old compiler's own runtime library — the part that
handled reading and writing files, floating-point arithmetic and program startup.

You do **not** need them. This application brings its own Fortran compiler, which
includes the modern equivalent. Just add your `.FOR` files and press compile.

The application recognises these files and says so when you add one.

### What to do instead

You need the **original Fortran source files** the library was built from —
usually more `.FOR` files, in the same folder or in one called something like
`SOURCE` or `SRC`. Add those under **Source files** as normal; the application
compiles them again and the `.LIB` is no longer needed.

If the source is genuinely gone, the code in that library has to be rewritten.
There is no way to convert an old `.LIB` into something usable.

## The other messages

- *Built for a different operating system* — the file is for Linux while you are
  building a Windows program, or the other way round.
- *Built for a different processor* — usually a 32-bit library against a 64-bit
  program. You need the matching build of the library.
- *This file is not a compiled library* — most likely a source file chosen by
  mistake. Add it under **Source files**.

## Your files are never modified

Like source files, library files are only ever **read**. The application copies
the contents into its own working folder to compile, and never writes over your
original.
");
    let g = guide();
    assert forall|i: int, j: int| 0 <= i < j < g.len() implies #[trigger] g[i].id@ != #[trigger] g[j].id@ by {
        assert(g[i].id@[1] != g[j].id@[1]);
    }
}

/// Every topic of the guide, in order.
pub fn topics() -> (v: Vec<HelpTopic>)
    ensures
        v@ == guide(),
        ids_distinct(v@),
        forall|i: int|
            0 <= i < v@.len() ==> opens_with_heading(#[trigger] v@[i].vi@) && opens_with_heading(
                v@[i].en@,
            ),
{
    proof {
        lemma_guide_is_well_formed();
    }
    let v = vec![
        HelpTopic {
            id: "01-bat-dau",
            title_vi: "Bắt đầu",
            title_en: "Getting started",
            vi: GETTING_STARTED_VI,
            en: GETTING_STARTED_EN,
        },
        HelpTopic {
            id: "02-them-tep",
            title_vi: "Thêm và sắp xếp tệp",
            title_en: "Adding and ordering files",
            vi: ADDING_FILES_VI,
            en: ADDING_FILES_EN,
        },
        HelpTopic {
            id: "03-luu-va-chay",
            title_vi: "Lưu và chạy chương trình",
            title_en: "Saving and running",
            vi: SAVING_AND_RUNNING_VI,
            en: SAVING_AND_RUNNING_EN,
        },
        HelpTopic {
            id: "04-loi-thuong-gap",
            title_vi: "Lỗi thường gặp",
            title_en: "Common errors",
            vi: COMMON_ERRORS_VI,
            en: COMMON_ERRORS_EN,
        },
        HelpTopic {
            id: "05-canh-bao-bao-mat",
            title_vi: "Cảnh báo bảo mật",
            title_en: "Security warnings",
            vi: SECURITY_WARNINGS_VI,
            en: SECURITY_WARNINGS_EN,
        },
        HelpTopic {
            id: "06-thu-vien",
            title_vi: "Thư viện đã biên dịch sẵn",
            title_en: "Pre-compiled libraries",
            vi: LIBRARIES_VI,
            en: LIBRARIES_EN,
        },
    ];
    assert(v@ =~= guide());
    v
}

/// The topic with this id, if the guide has one.
pub fn topic(id: &str) -> (r: Option<HelpTopic>)
    ensures
        r is Some <==> exists|i: int| 0 <= i < guide().len() && #[trigger] guide()[i].id@ == id@,
        r matches Some(t) ==> t.id@ == id@ && exists|i: int|
            0 <= i < guide().len() && #[trigger] guide()[i] == t,
{
    let all = topics();
    let want = chars_of(id);
    let mut k: usize = 0;
    while k < all.len()
        invariant
            all@ == guide(),
            want@ == id@,
            k <= all@.len(),
            forall|i: int| 0 <= i < k ==> (#[trigger] guide()[i]).id@ != id@,
        decreases all.len() - k,
    {
        let t = all[k];
        let c = chars_of(t.id);
        if chars_eq(c.as_slice(), want.as_slice()) {
            return Some(t);
        }
        k += 1;
    }
    None
}

} // verus!
